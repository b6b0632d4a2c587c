//! What a run of git means.

use vstd::prelude::*;
use vstd::string::*;

use crate::error::EngineError;
#[allow(unused_imports)]
use crate::error::ErrorKind;
use crate::text::{join, lines_of, lossy, same, split_at_char, trim_end_of};
#[allow(unused_imports)]
use crate::text::{joined, lines, lossy_text, split, texts, trim_end};

verus! {

/// What a process left behind.
#[derive(Debug, Clone, PartialEq)]
pub struct ProcessOutput {
    /// It exited with status zero.
    pub success: bool,
    pub stdout: Vec<u8>,
    pub stderr: Vec<u8>,
}

/// What git printed, or how it failed: with what it printed on standard error,
/// but for white space at its end.
pub open spec fn git_result(args: Seq<Seq<char>>, out: ProcessOutput) -> Result<
    Seq<char>,
    (ErrorKind, Seq<char>),
> {
    if out.success {
        Ok(lossy_text(out.stdout@))
    } else {
        Err(
            (
                ErrorKind::Internal,
                "git "@ + joined(args, " "@) + " failed: "@ + trim_end(lossy_text(out.stderr@)),
            ),
        )
    }
}

/// What git printed.
pub fn git_stdout(args: &Vec<String>, out: &ProcessOutput) -> (r: Result<String, EngineError>)
    ensures
        match r {
            Ok(s) => git_result(texts(args@), *out) == Ok::<_, (ErrorKind, Seq<char>)>(s@),
            Err(e) => git_result(texts(args@), *out) == Err::<Seq<char>, _>(e@),
        },
{
    if out.success {
        return Ok(lossy(out.stdout.as_slice()));
    }
    let said = trim_end_of(lossy(out.stderr.as_slice()).as_str());
    Err(
        EngineError::Internal(
            "git ".to_string().concat(join(args, " ").as_str()).concat(" failed: ").concat(
                said.as_str(),
            ),
        ),
    )
}

/// A line of `git ls-remote`, `<oid>` tab `<refname>`, is about this ref.
pub open spec fn line_is_about(line: Seq<char>, name: Seq<char>) -> bool {
    split(line, '\t').len() > 1 && split(line, '\t')[1] == name
}

/// What `git ls-remote` printed lists exactly this ref.
pub open spec fn lists_ref(printed: Seq<char>, name: Seq<char>) -> bool {
    exists|i: int| 0 <= i < lines(printed).len() && line_is_about(#[trigger] lines(printed)[i], name)
}

/// Whether what `git ls-remote` printed lists exactly this ref.
pub fn ref_is_listed(printed: &str, name: &str) -> (r: bool)
    ensures
        r == lists_ref(printed@, name@),
{
    let all = lines_of(printed);
    for i in 0..all.len()
        invariant
            texts(all@) == lines(printed@),
            forall|j: int|
                0 <= j < i ==> !line_is_about(#[trigger] lines(printed@)[j], name@),
    {
        let fields = split_at_char(all[i].as_str(), '\t');
        assert(texts(all@)[i as int] == all@[i as int]@);
        assert(lines(printed@)[i as int] == all@[i as int]@);
        if fields.len() > 1 {
            assert(texts(fields@)[1] == fields@[1]@);
            if same(fields[1].as_str(), name) {
                return true;
            }
        }
    }
    false
}

} // verus!
