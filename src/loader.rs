use vstd::prelude::*;

verus! {

/// Declares `usvg::Error`, the parser's error, so that `SvgError` can carry
/// it. The type stays opaque: nothing is assumed of what it holds.
#[verifier::external_type_specification]
#[verifier::external_body]
pub struct ExParseError(usvg::Error);

/// Loads documents from the file extensions it claims.
#[derive(Clone, Copy, Debug, Default)]
pub struct SvgAssetLoader;

impl SvgAssetLoader {
    /// The file extensions of the documents this loader reads.
    pub fn extensions(&self) -> (r: &'static [&'static str])
        ensures
            r@.len() == 2,
            r@[0]@ == "svg"@,
            r@[1]@ == "svgz"@,
    {
        proof {
            reveal_strlit("svg");
            reveal_strlit("svgz");
        }
        &["svg", "svgz"]
    }
}

/// Why a document could not be loaded.
#[derive(Debug)]
pub enum SvgError {
    /// The path has no file name to name the document by.
    InvalidFileName(String),
    /// The document's data could not be parsed.
    SvgError(usvg::Error),
}

impl From<usvg::Error> for SvgError {
    fn from(e: usvg::Error) -> (r: SvgError)
        ensures
            r == SvgError::SvgError(e),
    {
        SvgError::SvgError(e)
    }
}

impl vstd::std_specs::convert::FromSpecImpl<usvg::Error> for SvgError {
    open spec fn obeys_from_spec() -> bool {
        true
    }

    open spec fn from_spec(e: usvg::Error) -> SvgError {
        SvgError::SvgError(e)
    }
}

/// A load failure, with the path of the document it concerns.
#[derive(Debug)]
pub struct FileSvgError {
    error: SvgError,
    path: String,
}

impl FileSvgError {
    pub fn new(error: SvgError, path: String) -> (r: FileSvgError)
        ensures
            r.error() == error,
            r.path()@ == path@,
    {
        FileSvgError { error, path }
    }

    pub closed spec fn error(&self) -> SvgError {
        self.error
    }

    pub closed spec fn path(&self) -> String {
        self.path
    }

    pub fn get_error(&self) -> (r: &SvgError)
        ensures
            *r == self.error(),
    {
        &self.error
    }

    /// Takes the error apart into its cause and its path.
    pub fn into_parts(self) -> (r: (SvgError, String))
        ensures
            r.0 == self.error(),
            r.1@ == self.path()@,
    {
        (self.error, self.path)
    }

    pub fn get_path(&self) -> (r: &String)
        ensures
            r@ == self.path()@,
    {
        &self.path
    }
}

/// Names a document by the file name of its path. A path without a file
/// name is an explicit error, never a silent default.
pub fn resolve_file_name(file_name: Option<String>, path: String) -> (r: Result<String, FileSvgError>)
    ensures
        file_name is Some <==> r is Ok,
        r matches Ok(name) ==> name@ == file_name->0@,
        r matches Err(e) ==> e.path()@ == path@ && (e.error() matches SvgError::InvalidFileName(p)
            && p@ == path@),
{
    match file_name {
        Some(name) => Ok(name),
        None => {
            let shown = path.clone();
            Err(FileSvgError::new(SvgError::InvalidFileName(shown), path))
        },
    }
}

/// The failure to parse the document at `path`.
pub fn parse_failure(err: usvg::Error, path: String) -> (r: FileSvgError)
    ensures
        r.error() == SvgError::SvgError(err),
        r.path()@ == path@,
{
    FileSvgError::new(SvgError::from(err), path)
}

} // verus!
