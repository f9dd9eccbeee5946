//! The words of unit files: the names of modes, and command lines.
use crate::job_entry::JobMode;
use crate::socket_addr::{is_space, skip_spaces, word_end};
use crate::unit_base::KillMode;
use vstd::prelude::*;
use vstd::string::StringSliceAdditionalSpecFns;

verus! {

fn slice_is(bytes: &[u8], word: &Vec<u8>) -> (r: bool)
    ensures
        r == (bytes@ == word@),
{
    if bytes.len() != word.len() {
        return false;
    }
    let mut i: usize = 0;
    while i < bytes.len()
        invariant
            i <= bytes.len(),
            bytes@.len() == word@.len(),
            forall|k: int| 0 <= k < i ==> bytes@[k] == word@[k],
        decreases bytes.len() - i,
    {
        if bytes[i] != word[i] {
            return false;
        }
        i += 1;
    }
    assert(bytes@ =~= word@);
    true
}

/// The name of a kill mode in a unit file.
pub open spec fn kill_mode_name(mode: KillMode) -> Seq<u8> {
    match mode {
        KillMode::ControlGroup => seq![99u8, 111, 110, 116, 114, 111, 108, 45, 103, 114, 111, 117, 112],
        KillMode::Process => seq![112u8, 114, 111, 99, 101, 115, 115],
        KillMode::Mixed => seq![109u8, 105, 120, 101, 100],
        KillMode::Off => seq![110u8, 111, 110, 101],
    }
}

/// The kill mode that a name stands for.
pub open spec fn kill_mode_of(name: Seq<u8>) -> Option<KillMode> {
    if name == kill_mode_name(KillMode::ControlGroup) {
        Some(KillMode::ControlGroup)
    } else if name == kill_mode_name(KillMode::Process) {
        Some(KillMode::Process)
    } else if name == kill_mode_name(KillMode::Mixed) {
        Some(KillMode::Mixed)
    } else if name == kill_mode_name(KillMode::Off) {
        Some(KillMode::Off)
    } else {
        None
    }
}

/// The name of a kill mode in a unit file.
pub fn kill_mode_to_name(mode: KillMode) -> (r: Vec<u8>)
    ensures
        r@ == kill_mode_name(mode),
{
    let r: Vec<u8> = match mode {
        KillMode::ControlGroup => vec![99u8, 111, 110, 116, 114, 111, 108, 45, 103, 114, 111, 117, 112],
        KillMode::Process => vec![112u8, 114, 111, 99, 101, 115, 115],
        KillMode::Mixed => vec![109u8, 105, 120, 101, 100],
        KillMode::Off => vec![110u8, 111, 110, 101],
    };
    assert(r@ =~= kill_mode_name(mode));
    r
}

/// Reads the name of a kill mode.
pub fn kill_mode_from_name(name: &str) -> (r: Option<KillMode>)
    ensures
        r == kill_mode_of(name.spec_bytes()),
{
    let bytes = name.as_bytes();
    if slice_is(bytes, &kill_mode_to_name(KillMode::ControlGroup)) {
        Some(KillMode::ControlGroup)
    } else if slice_is(bytes, &kill_mode_to_name(KillMode::Process)) {
        Some(KillMode::Process)
    } else if slice_is(bytes, &kill_mode_to_name(KillMode::Mixed)) {
        Some(KillMode::Mixed)
    } else if slice_is(bytes, &kill_mode_to_name(KillMode::Off)) {
        Some(KillMode::Off)
    } else {
        None
    }
}

/// The name of a job mode in a unit file.
pub open spec fn job_mode_name(mode: JobMode) -> Seq<u8> {
    match mode {
        JobMode::JobFail => seq![102u8, 97, 105, 108],
        JobMode::JobReplace => seq![114u8, 101, 112, 108, 97, 99, 101],
        JobMode::JobReplaceIrreversible => seq![114u8, 101, 112, 108, 97, 99, 101, 45, 105, 114, 114, 101, 118, 101, 114, 115, 105, 98, 108, 101],
        JobMode::JobIsolate => seq![105u8, 115, 111, 108, 97, 116, 101],
        JobMode::JobFlush => seq![102u8, 108, 117, 115, 104],
        JobMode::JobIgnoreDependencies => seq![105u8, 103, 110, 111, 114, 101, 45, 100, 101, 112, 101, 110, 100, 101, 110, 99, 105, 101, 115],
        JobMode::JobIgnoreRequirements => seq![105u8, 103, 110, 111, 114, 101, 45, 114, 101, 113, 117, 105, 114, 101, 109, 101, 110, 116, 115],
        JobMode::JobTrigger => seq![116u8, 114, 105, 103, 103, 101, 114],
    }
}

/// The job mode that a name stands for.
pub open spec fn job_mode_of(name: Seq<u8>) -> Option<JobMode> {
    if name == job_mode_name(JobMode::JobFail) {
        Some(JobMode::JobFail)
    } else if name == job_mode_name(JobMode::JobReplace) {
        Some(JobMode::JobReplace)
    } else if name == job_mode_name(JobMode::JobReplaceIrreversible) {
        Some(JobMode::JobReplaceIrreversible)
    } else if name == job_mode_name(JobMode::JobIsolate) {
        Some(JobMode::JobIsolate)
    } else if name == job_mode_name(JobMode::JobFlush) {
        Some(JobMode::JobFlush)
    } else if name == job_mode_name(JobMode::JobIgnoreDependencies) {
        Some(JobMode::JobIgnoreDependencies)
    } else if name == job_mode_name(JobMode::JobIgnoreRequirements) {
        Some(JobMode::JobIgnoreRequirements)
    } else if name == job_mode_name(JobMode::JobTrigger) {
        Some(JobMode::JobTrigger)
    } else {
        None
    }
}

/// The name of a job mode in a unit file.
pub fn job_mode_to_name(mode: JobMode) -> (r: Vec<u8>)
    ensures
        r@ == job_mode_name(mode),
{
    let r: Vec<u8> = match mode {
        JobMode::JobFail => vec![102u8, 97, 105, 108],
        JobMode::JobReplace => vec![114u8, 101, 112, 108, 97, 99, 101],
        JobMode::JobReplaceIrreversible => vec![114u8, 101, 112, 108, 97, 99, 101, 45, 105, 114, 114, 101, 118, 101, 114, 115, 105, 98, 108, 101],
        JobMode::JobIsolate => vec![105u8, 115, 111, 108, 97, 116, 101],
        JobMode::JobFlush => vec![102u8, 108, 117, 115, 104],
        JobMode::JobIgnoreDependencies => vec![105u8, 103, 110, 111, 114, 101, 45, 100, 101, 112, 101, 110, 100, 101, 110, 99, 105, 101, 115],
        JobMode::JobIgnoreRequirements => vec![105u8, 103, 110, 111, 114, 101, 45, 114, 101, 113, 117, 105, 114, 101, 109, 101, 110, 116, 115],
        JobMode::JobTrigger => vec![116u8, 114, 105, 103, 103, 101, 114],
    };
    assert(r@ =~= job_mode_name(mode));
    r
}

/// Reads the name of a job mode.
pub fn job_mode_from_name(name: &str) -> (r: Option<JobMode>)
    ensures
        r == job_mode_of(name.spec_bytes()),
{
    let bytes = name.as_bytes();
    if slice_is(bytes, &job_mode_to_name(JobMode::JobFail)) {
        Some(JobMode::JobFail)
    } else if slice_is(bytes, &job_mode_to_name(JobMode::JobReplace)) {
        Some(JobMode::JobReplace)
    } else if slice_is(bytes, &job_mode_to_name(JobMode::JobReplaceIrreversible)) {
        Some(JobMode::JobReplaceIrreversible)
    } else if slice_is(bytes, &job_mode_to_name(JobMode::JobIsolate)) {
        Some(JobMode::JobIsolate)
    } else if slice_is(bytes, &job_mode_to_name(JobMode::JobFlush)) {
        Some(JobMode::JobFlush)
    } else if slice_is(bytes, &job_mode_to_name(JobMode::JobIgnoreDependencies)) {
        Some(JobMode::JobIgnoreDependencies)
    } else if slice_is(bytes, &job_mode_to_name(JobMode::JobIgnoreRequirements)) {
        Some(JobMode::JobIgnoreRequirements)
    } else if slice_is(bytes, &job_mode_to_name(JobMode::JobTrigger)) {
        Some(JobMode::JobTrigger)
    } else {
        None
    }
}

/// Where a word of a line begins and where it ends.
#[derive(Clone, Copy, PartialEq, Eq, Debug, Structural)]
pub struct WordRange {
    pub start: usize,
    pub end: usize,
}

/// The words of a line from `from` on, in order: the runs of bytes
/// between the blanks.
pub open spec fn line_words(s: Seq<u8>, from: int) -> Seq<WordRange>
    decreases s.len() - from,
    via line_words_decreases
{
    let start = skip_spaces(s, from);
    if from < 0 || start >= s.len() {
        Seq::empty()
    } else {
        let end = word_end(s, start);
        seq![WordRange { start: start as usize, end: end as usize }] + line_words(s, end)
    }
}

#[via_fn]
proof fn line_words_decreases(s: Seq<u8>, from: int) {
    if from >= 0 {
        lemma_word_bounds(s, from);
        let start = skip_spaces(s, from);
        if start < s.len() {
            lemma_word_bounds(s, start);
        }
    }
}

/// The places that skipping blanks and finding the end of a word lead
/// to lie at or after the place where the search begins, and a word
/// that begins at a byte which is no blank ends after it.
pub proof fn lemma_word_bounds(s: Seq<u8>, from: int)
    requires
        0 <= from,
    ensures
        from <= skip_spaces(s, from) || skip_spaces(s, from) == s.len(),
        0 <= skip_spaces(s, from) <= s.len(),
        from <= word_end(s, from) || word_end(s, from) == s.len(),
        0 <= word_end(s, from) <= s.len(),
        from < s.len() && !is_space(s[from]) ==> from < word_end(s, from),
        skip_spaces(s, from) < s.len() ==> !is_space(s[skip_spaces(s, from)]),
    decreases s.len() - from,
{
    if from < s.len() {
        lemma_word_bounds(s, from + 1);
    }
}

/// The words of a command line: the path of the command first, then
/// its arguments.
pub fn command_words(line: &str) -> (r: Vec<WordRange>)
    ensures
        r@ == line_words(line.spec_bytes(), 0),
{
    let bytes = line.as_bytes();
    let mut words: Vec<WordRange> = Vec::new();
    let mut pos: usize = 0;
    proof {
        assert(Seq::<WordRange>::empty() + line_words(bytes@, 0) =~= line_words(bytes@, 0));
    }
    loop
        invariant
            pos <= bytes@.len(),
            bytes@ == line.spec_bytes(),
            line_words(bytes@, 0) == words@ + line_words(bytes@, pos as int),
        decreases bytes@.len() - pos,
    {
        let mut start: usize = pos;
        while start < bytes.len() && (bytes[start] == 32 || (9 <= bytes[start] && bytes[start]
            <= 13))
            invariant
                pos <= start <= bytes@.len(),
                skip_spaces(bytes@, pos as int) == skip_spaces(bytes@, start as int),
            decreases bytes@.len() - start,
        {
            start += 1;
        }
        if start >= bytes.len() {
            proof {
                assert(skip_spaces(bytes@, start as int) == bytes@.len());
                assert(line_words(bytes@, pos as int) =~= Seq::<WordRange>::empty());
                assert(words@ + Seq::<WordRange>::empty() =~= words@);
            }
            return words;
        }
        let mut end: usize = start;
        while end < bytes.len() && !(bytes[end] == 32 || (9 <= bytes[end] && bytes[end] <= 13))
            invariant
                start <= end <= bytes@.len(),
                word_end(bytes@, start as int) == word_end(bytes@, end as int),
            decreases bytes@.len() - end,
        {
            end += 1;
        }
        proof {
            lemma_word_bounds(bytes@, start as int);
            let rest = line_words(bytes@, end as int);
            assert(words@ + (seq![WordRange { start, end }] + rest) =~= words@.push(
                WordRange { start, end },
            ) + rest);
        }
        words.push(WordRange { start, end });
        pos = end;
    }
}

} // verus!
