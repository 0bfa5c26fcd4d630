use crate::names::strings_view;
use crate::sys::ContextSys;
use vstd::prelude::*;

verus! {

/// What the system answered about a candidate file: it does not exist, it
/// exists but is not a regular file, it is a regular file, or one of the
/// two calls that ask failed.
pub enum FileAnswer {
    Absent,
    NotFile,
    File,
    Failed(std::io::Error),
}

/// The path asked about and the system's answer.
pub struct FileProbe {
    pub path: String,
    pub answer: FileAnswer,
}

/// Whether an answer ends a search: a file was found, or a call failed.
pub open spec fn is_decisive(p: FileProbe) -> bool {
    p.answer is File || p.answer is Failed
}

/// Whether `probes` are the answers about the first candidates of
/// `candidates`, each about its candidate, asked in order and stopping at
/// the first answer that ends the search.
pub open spec fn asked_in_order(candidates: Seq<Seq<char>>, probes: Seq<FileProbe>) -> bool {
    &&& probes.len() <= candidates.len()
    &&& forall|i: int| 0 <= i < probes.len() ==> (#[trigger] probes[i]).path@ == candidates[i]
    &&& forall|i: int| 0 <= i < probes.len() - 1 ==> !is_decisive(#[trigger] probes[i])
    &&& probes.len() < candidates.len() ==> probes.len() > 0 && is_decisive(probes.last())
}

/// Whether the answers found a file (the last one asked about).
pub open spec fn probes_found(probes: Seq<FileProbe>) -> bool {
    probes.len() > 0 && probes.last().answer is File
}

/// Whether the answers end with a failed call, with error `e`.
pub open spec fn probes_failed_with(probes: Seq<FileProbe>, e: std::io::Error) -> bool {
    probes.len() > 0 && probes.last().answer == FileAnswer::Failed(e)
}

/// Whether no answer ended the search.
pub open spec fn probes_undecided(probes: Seq<FileProbe>) -> bool {
    probes.len() == 0 || !is_decisive(probes.last())
}

/// Whether the answer about `p.path` is one the system may give: absent only
/// where "exists" may be answered no; not a regular file or a regular file
/// only where "exists" may be answered yes and "is a regular file" no or
/// yes; a failure only with an error that one of the two calls may give.
pub open spec fn probe_reported<S: ContextSys>(sys: &S, p: FileProbe) -> bool {
    match p.answer {
        FileAnswer::Absent => sys.exists_answer(p.path@, Ok(false)),
        FileAnswer::NotFile => sys.exists_answer(p.path@, Ok(true)) && sys.is_file_answer(
            p.path@,
            Ok(false),
        ),
        FileAnswer::File => sys.exists_answer(p.path@, Ok(true)) && sys.is_file_answer(
            p.path@,
            Ok(true),
        ),
        FileAnswer::Failed(e) => sys.exists_answer(p.path@, Err(e)) || (sys.exists_answer(
            p.path@,
            Ok(true),
        ) && sys.is_file_answer(p.path@, Err(e))),
    }
}

/// Whether every answer of `probes` is one the system may give.
pub open spec fn probes_reported<S: ContextSys>(sys: &S, probes: Seq<FileProbe>) -> bool {
    forall|i: int| 0 <= i < probes.len() ==> probe_reported(sys, #[trigger] probes[i])
}

/// Whether the system reports `path` as a regular file: every answer it may
/// give to "exists" and to "is a regular file" is yes.
pub open spec fn reports_file<S: ContextSys>(sys: &S, path: Seq<char>) -> bool {
    &&& forall|a: Result<bool, std::io::Error>|
        #[trigger] sys.exists_answer(path, a) ==> a == Ok::<bool, std::io::Error>(true)
    &&& forall|a: Result<bool, std::io::Error>|
        #[trigger] sys.is_file_answer(path, a) ==> a == Ok::<bool, std::io::Error>(true)
}

/// Whether the system reports `path` as no regular file, without failing:
/// every answer it may give to "exists" is a yes or a no, and every answer
/// to "is a regular file" is no.
pub open spec fn reports_no_file<S: ContextSys>(sys: &S, path: Seq<char>) -> bool {
    &&& forall|a: Result<bool, std::io::Error>| #[trigger] sys.exists_answer(path, a) ==> a is Ok
    &&& forall|a: Result<bool, std::io::Error>|
        #[trigger] sys.is_file_answer(path, a) ==> a == Ok::<bool, std::io::Error>(false)
}

/// Whether the system reports `candidates[k]` as a regular file and every
/// candidate before it as none.
pub open spec fn first_file_at<S: ContextSys>(sys: &S, candidates: Seq<Seq<char>>, k: int) -> bool {
    &&& 0 <= k < candidates.len()
    &&& reports_file(sys, candidates[k])
    &&& forall|j: int| 0 <= j < k ==> reports_no_file(sys, #[trigger] candidates[j])
}

/// Whether the system reports every one of `candidates` as no regular file.
pub open spec fn no_file_among<S: ContextSys>(sys: &S, candidates: Seq<Seq<char>>) -> bool {
    forall|j: int| 0 <= j < candidates.len() ==> reports_no_file(sys, #[trigger] candidates[j])
}

/// An answer the system may give about a path that it reports as a regular
/// file says it is one; one about a path it reports as none does not end a
/// search.
pub proof fn lemma_probe_reported<S: ContextSys>(sys: &S, p: FileProbe)
    requires
        probe_reported(sys, p),
    ensures
        reports_file(sys, p.path@) ==> p.answer is File,
        reports_no_file(sys, p.path@) ==> !is_decisive(p),
{
    if reports_file(sys, p.path@) {
        match p.answer {
            FileAnswer::Absent => assert(sys.exists_answer(p.path@, Ok(false))),
            FileAnswer::NotFile => assert(sys.is_file_answer(p.path@, Ok(false))),
            FileAnswer::Failed(e) => {
                if sys.exists_answer(p.path@, Err(e)) {
                } else {
                    assert(sys.is_file_answer(p.path@, Err(e)));
                }
            },
            FileAnswer::File => {},
        }
    }
    if reports_no_file(sys, p.path@) {
        match p.answer {
            FileAnswer::File => assert(sys.is_file_answer(p.path@, Ok(true))),
            FileAnswer::Failed(e) => {
                if sys.exists_answer(p.path@, Err(e)) {
                } else {
                    assert(sys.is_file_answer(p.path@, Err(e)));
                }
            },
            _ => {},
        }
    }
}

/// A search through candidates, asked in order with answers the system may
/// give, ends at the first candidate that the system reports as a regular
/// file when it reports every earlier one as none: it finds that candidate.
pub proof fn lemma_first_file_found<S: ContextSys>(
    sys: &S,
    candidates: Seq<Seq<char>>,
    probes: Seq<FileProbe>,
    k: int,
)
    requires
        asked_in_order(candidates, probes),
        probes_reported(sys, probes),
        first_file_at(sys, candidates, k),
    ensures
        probes.len() == k + 1,
        probes_found(probes),
{
    assert forall|j: int| 0 <= j < k && j < probes.len() implies !is_decisive(
        #[trigger] probes[j],
    ) by {
        assert(probes[j].path@ == candidates[j]);
        assert(reports_no_file(sys, candidates[j]));
        lemma_probe_reported(sys, probes[j]);
    }
    if probes.len() <= k {
        if probes.len() < candidates.len() {
            assert(is_decisive(probes[probes.len() - 1]));
        }
    }
    assert(probes[k].path@ == candidates[k]);
    assert(probe_reported(sys, probes[k]));
    lemma_probe_reported(sys, probes[k]);
    if probes.len() > k + 1 {
        assert(!is_decisive(probes[k]));
    }
}

/// A search through candidates, asked in order with answers the system may
/// give, that the system reports as no regular file each, asks about every
/// candidate and ends undecided.
pub proof fn lemma_no_file_found<S: ContextSys>(
    sys: &S,
    candidates: Seq<Seq<char>>,
    probes: Seq<FileProbe>,
)
    requires
        asked_in_order(candidates, probes),
        probes_reported(sys, probes),
        no_file_among(sys, candidates),
    ensures
        probes.len() == candidates.len(),
        probes_undecided(probes),
{
    assert forall|j: int| 0 <= j < probes.len() implies !is_decisive(#[trigger] probes[j]) by {
        assert(probes[j].path@ == candidates[j]);
        assert(reports_no_file(sys, candidates[j]));
        lemma_probe_reported(sys, probes[j]);
    }
    if probes.len() < candidates.len() {
        assert(is_decisive(probes[probes.len() - 1]));
    }
}

/// Whether an answer ends a search.
pub fn decides(p: &FileProbe) -> (r: bool)
    ensures
        r == is_decisive(*p),
{
    match p.answer {
        FileAnswer::File => true,
        FileAnswer::Failed(_) => true,
        _ => false,
    }
}

/// Whether answers, asked in order, ended the search.
pub fn probes_decided(probes: &Vec<FileProbe>) -> (r: bool)
    ensures
        r == !probes_undecided(probes@),
{
    if probes.len() == 0 {
        false
    } else {
        decides(&probes[probes.len() - 1])
    }
}

/// Asks the system whether `path` exists and, if so, whether it is a
/// regular file.
fn probe_file<S: ContextSys>(sys: &S, path: &String) -> (r: FileProbe)
    ensures
        r.path@ == path@,
        probe_reported(sys, r),
{
    let answer = match sys.fs_exists(path.as_str()) {
        Err(e) => FileAnswer::Failed(e),
        Ok(false) => FileAnswer::Absent,
        Ok(true) => match sys.fs_is_file(path.as_str()) {
            Err(e) => FileAnswer::Failed(e),
            Ok(true) => FileAnswer::File,
            Ok(false) => FileAnswer::NotFile,
        },
    };
    FileProbe { path: path.clone(), answer }
}

/// Asks about each candidate in order, until one is a regular file or a
/// call fails, and returns the answers.
pub fn probe_candidates<S: ContextSys>(sys: &S, candidates: &Vec<String>) -> (r: Vec<FileProbe>)
    ensures
        asked_in_order(strings_view(candidates@), r@),
        probes_reported(sys, r@),
{
    let ghost cands = strings_view(candidates@);
    let mut out: Vec<FileProbe> = Vec::new();
    let mut done = false;
    while out.len() < candidates.len() && !done
        invariant
            cands == strings_view(candidates@),
            out@.len() <= candidates@.len(),
            forall|i: int| 0 <= i < out@.len() ==> (#[trigger] out@[i]).path@ == cands[i],
            probes_reported(sys, out@),
            forall|i: int| 0 <= i < out@.len() - 1 ==> !is_decisive(#[trigger] out@[i]),
            done ==> out@.len() > 0 && is_decisive(out@.last()),
            !done ==> out@.len() == 0 || !is_decisive(out@.last()),
        decreases candidates.len() - out.len(),
    {
        let k = out.len();
        let p = probe_file(sys, &candidates[k]);
        assert(cands[k as int] == candidates@[k as int]@);
        done = decides(&p);
        out.push(p);
    }
    out
}

/// The outcome of answers asked in order.
pub enum FileSearch {
    Found,
    Failed(std::io::Error),
    Undecided,
}

/// The outcome of answers asked in order: a file found at the last one, the
/// error of the failed call that ended them, or neither.
pub fn search_outcome(probes: Vec<FileProbe>) -> (r: FileSearch)
    ensures
        r is Found <==> probes_found(probes@),
        r is Failed <==> (probes@.len() > 0 && probes@.last().answer is Failed),
        r matches FileSearch::Failed(e) ==> probes_failed_with(probes@, e),
        r is Undecided <==> probes_undecided(probes@),
{
    let mut probes = probes;
    match probes.pop() {
        None => FileSearch::Undecided,
        Some(p) => match p.answer {
            FileAnswer::File => FileSearch::Found,
            FileAnswer::Failed(e) => FileSearch::Failed(e),
            _ => FileSearch::Undecided,
        },
    }
}

} // verus!
