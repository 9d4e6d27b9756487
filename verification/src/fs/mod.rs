//! File-system helpers: locating template files.

pub mod paths;

use vstd::prelude::*;
use vstd::utf8::*;

use self::paths::{
    spec_absolutize, spec_join, spec_path_text, PathBuf, PathBufExt,
};

verus! {

/// The pattern, relative to a base directory, that template files match.
pub const DEFAULT_MATCH_PATTERN: &'static str = "**/*.tera*";

/// What can go wrong when locating or reading template files.
#[derive(Debug)]
#[allow(inconsistent_fields)]
pub enum Error {
    /// A path could not be made absolute or turned into text.
    InvalidPath { source: paths::Error },
    /// The glob pattern was rejected.
    InvalidPattern { source: glob::PatternError },
    /// A path matched by the pattern could not be read.
    UnreadablePath { source: glob::GlobError },
    /// A file could not be read.
    ReadFile { source: std::io::Error, path: PathBuf },
}

/// The error that `glob` reports for a malformed pattern, carried through unchanged.
#[verifier::external_type_specification]
#[verifier::external_body]
pub struct ExPatternError(glob::PatternError);

/// The error that `glob` reports for a path it cannot read, carried through unchanged.
#[verifier::external_type_specification]
#[verifier::external_body]
pub struct ExGlobError(glob::GlobError);

/// The glob pattern that finds the template files under `base_path`: the base made
/// absolute against `current_dir` (as the caller obtained it), joined with
/// [`DEFAULT_MATCH_PATTERN`], as text.
pub fn build_glob_pattern(base_path: PathBuf, current_dir: Result<PathBuf, std::io::Error>) -> (r:
    Result<String, Error>)
    ensures
        match spec_absolutize(base_path@, current_dir) {
            Err(e) => r == Err::<String, Error>(
                Error::InvalidPath { source: paths::Error::InvalidCurrentWorkingDirectory { source: e } },
            ),
            Ok(abs) => {
                let joined = spec_join(abs, encode_utf8(DEFAULT_MATCH_PATTERN@));
                match spec_path_text(joined) {
                    Some(t) => r matches Ok(s) && s@ == t,
                    None => r matches Err(Error::InvalidPath { source: paths::Error::InvalidPath { path } })
                        && path@ == joined,
                }
            },
        },
{
    let base = match base_path.absolutize(current_dir) {
        Ok(p) => p,
        Err(e) => return Err(Error::InvalidPath { source: e }),
    };
    let path = base.join(&PathBuf::from_str(DEFAULT_MATCH_PATTERN));
    match path.into_str() {
        Ok(s) => Ok(s.to_owned()),
        Err(e) => Err(Error::InvalidPath { source: e }),
    }
}

/// With an absolute working directory, the glob pattern is an absolute path.
pub proof fn lemma_glob_pattern_absolute(base_path: Seq<u8>, current_dir: PathBuf)
    requires
        paths::spec_is_absolute(current_dir@),
    ensures
        paths::spec_is_absolute(
            spec_join(
                spec_absolutize(base_path, Ok(current_dir))->Ok_0,
                encode_utf8(DEFAULT_MATCH_PATTERN@),
            ),
        ),
{
    paths::lemma_absolutize_absolute(base_path, current_dir);
    paths::lemma_join_absolute(
        spec_absolutize(base_path, Ok(current_dir))->Ok_0,
        encode_utf8(DEFAULT_MATCH_PATTERN@),
    );
}

} // verus!
