use vstd::prelude::*;

verus! {

/// `std::io::Error`, the error of the system's file and environment calls.
#[verifier::external_type_specification]
#[verifier::external_body]
pub struct ExIoError(std::io::Error);

/// A text answer of the system, taken by its characters.
pub open spec fn text_answer(r: Result<String, std::io::Error>) -> Result<Seq<char>, std::io::Error> {
    match r {
        Ok(s) => Ok(s@),
        Err(e) => Err(e),
    }
}

/// A byte answer of the system, taken by its bytes.
pub open spec fn bytes_answer(r: Result<Vec<u8>, std::io::Error>) -> Result<Seq<u8>, std::io::Error> {
    match r {
        Ok(b) => Ok(b@),
        Err(e) => Err(e),
    }
}

/// The system a context works against: its current directory and its file
/// system. Paths are passed and returned as strings.
///
/// Each implementation says, by its spec functions, which answers it may
/// give to each question; a file system that changes under the process may
/// allow several answers to one question. Each call returns one of the
/// answers that the implementation allows. An implementation that does not
/// define a spec function allows every answer to that question, and so
/// promises nothing of it.
pub trait ContextSys {
    /// Whether `a` is an answer the system may give for its current directory.
    open spec fn current_dir_answer(&self, a: Result<Seq<char>, std::io::Error>) -> bool {
        true
    }

    /// Whether `a` is an answer the system may give to "does `path` exist".
    open spec fn exists_answer(&self, path: Seq<char>, a: Result<bool, std::io::Error>) -> bool {
        true
    }

    /// Whether `a` is an answer the system may give to "is `path` a regular file".
    open spec fn is_file_answer(&self, path: Seq<char>, a: Result<bool, std::io::Error>) -> bool {
        true
    }

    /// Whether `a` is an answer the system may give to "is `path` a directory".
    open spec fn is_dir_answer(&self, path: Seq<char>, a: Result<bool, std::io::Error>) -> bool {
        true
    }

    /// Whether `a` is an answer the system may give for the canonical form of `path`.
    open spec fn canonical_answer(&self, path: Seq<char>, a: Result<Seq<char>, std::io::Error>) -> bool {
        true
    }

    /// Whether `a` is an answer the system may give for the bytes of the file at `path`.
    open spec fn read_answer(&self, path: Seq<char>, a: Result<Seq<u8>, std::io::Error>) -> bool {
        true
    }

    /// The current directory of the process.
    fn env_current_dir(&self) -> (r: Result<String, std::io::Error>)
        ensures
            self.current_dir_answer(text_answer(r)),
    ;

    /// Whether something exists at `path`.
    fn fs_exists(&self, path: &str) -> (r: Result<bool, std::io::Error>)
        ensures
            self.exists_answer(path@, r),
    ;

    /// Whether `path` is a regular file.
    fn fs_is_file(&self, path: &str) -> (r: Result<bool, std::io::Error>)
        ensures
            self.is_file_answer(path@, r),
    ;

    /// Whether `path` is a directory.
    fn fs_is_dir(&self, path: &str) -> (r: Result<bool, std::io::Error>)
        ensures
            self.is_dir_answer(path@, r),
    ;

    /// The canonical, absolute form of `path`.
    fn fs_canonicalize(&self, path: &str) -> (r: Result<String, std::io::Error>)
        ensures
            self.canonical_answer(path@, text_answer(r)),
    ;

    /// The bytes of the file at `path`.
    fn fs_read(&self, path: &str) -> (r: Result<Vec<u8>, std::io::Error>)
        ensures
            self.read_answer(path@, bytes_answer(r)),
    ;
}

} // verus!
