//! Search over the lines of the note files found under the notes root.
use vstd::prelude::*;
use crate::text::{chars_of, contains_chars, has_substring};

verus! {

/// One file met while walking the notes root: its path, and its lines when
/// it could be opened and read as text (`None` when it could not).
pub struct NoteFile {
    pub path: String,
    pub lines: Option<Vec<String>>,
}

/// The lines of `lines` that contain `term`, in their order, each as often as
/// it stands there.
pub open spec fn matches_in(lines: Seq<String>, term: Seq<char>) -> Seq<String>
    decreases lines.len(),
{
    if lines.len() == 0 {
        Seq::empty()
    } else {
        let prev = matches_in(lines.drop_last(), term);
        if has_substring(lines.last()@, term) {
            prev.push(lines.last())
        } else {
            prev
        }
    }
}

/// The lines a file contributes to a search: none when it was unreadable.
pub open spec fn file_matches(f: NoteFile, term: Seq<char>) -> Seq<String> {
    match f.lines {
        Some(v) => matches_in(v@, term),
        None => Seq::empty(),
    }
}

/// The result of a search: the matches of each file in walking order.
pub open spec fn search_result(files: Seq<NoteFile>, term: Seq<char>) -> Seq<String>
    decreases files.len(),
{
    if files.len() == 0 {
        Seq::empty()
    } else {
        search_result(files.drop_last(), term) + file_matches(files.last(), term)
    }
}

/// Every line of every readable file, in walking order.
pub open spec fn all_lines(files: Seq<NoteFile>) -> Seq<String>
    decreases files.len(),
{
    if files.len() == 0 {
        Seq::empty()
    } else {
        let last = match files.last().lines {
            Some(v) => v@,
            None => Seq::empty(),
        };
        all_lines(files.drop_last()) + last
    }
}

fn matching_lines_chars(lines: &Vec<String>, t: &Vec<char>) -> (r: Vec<String>)
    ensures
        r@ == matches_in(lines@, t@),
{
    let mut r: Vec<String> = Vec::new();
    let mut i: usize = 0;
    while i < lines.len()
        invariant
            i <= lines@.len(),
            r@ == matches_in(lines@.subrange(0, i as int), t@),
        decreases lines@.len() - i,
    {
        let line = &lines[i];
        let s = chars_of(line.as_str());
        assert(lines@.subrange(0, i + 1).drop_last() =~= lines@.subrange(0, i as int));
        if contains_chars(&s, t) {
            r.push(line.clone());
        }
        i = i + 1;
    }
    assert(lines@.subrange(0, i as int) =~= lines@);
    r
}

/// The lines of one file that contain `term`, in order, duplicates kept.
pub fn matching_lines(lines: &Vec<String>, term: &str) -> (r: Vec<String>)
    ensures
        r@ == matches_in(lines@, term@),
{
    let t = chars_of(term);
    matching_lines_chars(lines, &t)
}

/// Searches the files met under the notes root for `term`: the matching lines
/// of every readable file, in walking order; unreadable files are skipped.
pub fn search(files: &Vec<NoteFile>, term: &str) -> (r: Vec<String>)
    ensures
        r@ == search_result(files@, term@),
{
    let t = chars_of(term);
    let mut r: Vec<String> = Vec::new();
    let mut i: usize = 0;
    while i < files.len()
        invariant
            i <= files@.len(),
            t@ == term@,
            r@ == search_result(files@.subrange(0, i as int), term@),
        decreases files@.len() - i,
    {
        let f = &files[i];
        assert(files@.subrange(0, i + 1).drop_last() =~= files@.subrange(0, i as int));
        match &f.lines {
            Some(v) => {
                let mut found = matching_lines_chars(v, &t);
                r.append(&mut found);
            },
            None => {
                assert(r@ =~= r@ + file_matches(files@[i as int], term@));
            },
        }
        i = i + 1;
    }
    assert(files@.subrange(0, i as int) =~= files@);
    r
}

/// Searching a walk that is split in two gives the results of the two parts,
/// one after the other.
pub proof fn lemma_search_concat(a: Seq<NoteFile>, b: Seq<NoteFile>, term: Seq<char>)
    ensures
        search_result(a + b, term) == search_result(a, term) + search_result(b, term),
    decreases b.len(),
{
    if b.len() == 0 {
        assert(a + b =~= a);
        assert(search_result(a, term) + search_result(b, term) =~= search_result(a, term));
    } else {
        assert((a + b).drop_last() =~= a + b.drop_last());
        lemma_search_concat(a, b.drop_last(), term);
        assert(search_result(a + b, term) =~= search_result(a, term) + search_result(b, term));
    }
}

/// A walk of one file gives that file's matches.
pub proof fn lemma_search_single(f: NoteFile, term: Seq<char>)
    ensures
        search_result(seq![f], term) == file_matches(f, term),
{
    assert(seq![f].drop_last() =~= Seq::<NoteFile>::empty());
    assert(seq![f].last() == f);
    assert(search_result(Seq::<NoteFile>::empty(), term) == Seq::<String>::empty());
    assert(Seq::<String>::empty() + file_matches(f, term) =~= file_matches(f, term));
}

/// A line that contains the term is among the matches of its file.
pub proof fn lemma_matching_line_kept(lines: Seq<String>, term: Seq<char>, j: int)
    requires
        0 <= j < lines.len(),
        has_substring(lines[j]@, term),
    ensures
        matches_in(lines, term).contains(lines[j]),
    decreases lines.len(),
{
    if j == lines.len() - 1 {
        assert(matches_in(lines, term).last() == lines[j]);
    } else {
        lemma_matching_line_kept(lines.drop_last(), term, j);
        let prev = matches_in(lines.drop_last(), term);
        let k = choose|k: int| 0 <= k < prev.len() && prev[k] == lines[j];
        if has_substring(lines.last()@, term) {
            assert(matches_in(lines, term)[k] == lines[j]);
        }
    }
}

/// Where every line contains the term, every line matches.
pub proof fn lemma_all_lines_match(lines: Seq<String>, term: Seq<char>)
    requires
        forall|j: int| 0 <= j < lines.len() ==> has_substring(#[trigger] lines[j]@, term),
    ensures
        matches_in(lines, term) == lines,
    decreases lines.len(),
{
    if lines.len() > 0 {
        lemma_all_lines_match(lines.drop_last(), term);
        assert(has_substring(lines[lines.len() - 1]@, term));
        assert(lines.drop_last().push(lines.last()) =~= lines);
    }
}

/// Where no line contains the term, nothing matches.
pub proof fn lemma_no_line_matches(lines: Seq<String>, term: Seq<char>)
    requires
        forall|j: int| 0 <= j < lines.len() ==> !has_substring(#[trigger] lines[j]@, term),
    ensures
        matches_in(lines, term) == Seq::<String>::empty(),
    decreases lines.len(),
{
    if lines.len() > 0 {
        lemma_no_line_matches(lines.drop_last(), term);
        assert(!has_substring(lines[lines.len() - 1]@, term));
    }
}

/// Every line of a readable file that contains the term is returned: the
/// file contributes all of its matching lines, in place in walking order,
/// one for each line that contains the term.
pub proof fn lemma_match_surfaces(files: Seq<NoteFile>, term: Seq<char>, i: int, j: int)
    requires
        0 <= i < files.len(),
        files[i].lines is Some,
        0 <= j < files[i].lines->0@.len(),
        has_substring(files[i].lines->0@[j]@, term),
    ensures
        search_result(files, term) == search_result(files.subrange(0, i), term) + matches_in(
            files[i].lines->0@,
            term,
        ) + search_result(files.subrange(i + 1, files.len() as int), term),
        search_result(files, term).contains(files[i].lines->0@[j]),
{
    let lines = files[i].lines->0@;
    let a = files.subrange(0, i);
    let b = files.subrange(i + 1, files.len() as int);
    assert(files =~= (a + seq![files[i]]) + b);
    lemma_search_concat(a + seq![files[i]], b, term);
    lemma_search_concat(a, seq![files[i]], term);
    lemma_search_single(files[i], term);
    lemma_matching_line_kept(lines, term, j);
    let m = matches_in(lines, term);
    let k = choose|k: int| 0 <= k < m.len() && m[k] == lines[j];
    let whole = search_result(files, term);
    assert(whole[search_result(a, term).len() + k] == lines[j]);
}

/// The empty term matches every line: searching for it returns every line of
/// every readable file.
pub proof fn lemma_empty_term_every_line(files: Seq<NoteFile>)
    ensures
        search_result(files, Seq::<char>::empty()) == all_lines(files),
    decreases files.len(),
{
    if files.len() > 0 {
        lemma_empty_term_every_line(files.drop_last());
        if files.last().lines is Some {
            let lines = files.last().lines->0@;
            assert forall|j: int| 0 <= j < lines.len() implies has_substring(
                #[trigger] lines[j]@,
                Seq::<char>::empty(),
            ) by {
                assert(lines[j]@.subrange(0, 0) =~= Seq::<char>::empty());
                assert(crate::text::occurs_at(lines[j]@, Seq::<char>::empty(), 0));
            }
            lemma_all_lines_match(lines, Seq::<char>::empty());
        }
    }
}

/// A term that no line of any readable file contains gives no result.
pub proof fn lemma_absent_term_no_result(files: Seq<NoteFile>, term: Seq<char>)
    requires
        forall|i: int, j: int|
            0 <= i < files.len() && #[trigger] files[i].lines is Some && 0 <= j
                < files[i].lines->0@.len() ==> !has_substring(
                #[trigger] files[i].lines->0@[j]@,
                term,
            ),
    ensures
        search_result(files, term) == Seq::<String>::empty(),
    decreases files.len(),
{
    if files.len() > 0 {
        let n = files.len() - 1;
        assert forall|i: int, j: int|
            0 <= i < files.drop_last().len() && #[trigger] files.drop_last()[i].lines is Some && 0
                <= j < files.drop_last()[i].lines->0@.len() implies !has_substring(
            #[trigger] files.drop_last()[i].lines->0@[j]@,
            term,
        ) by {
            assert(files[i].lines is Some);
            assert(!has_substring(files[i].lines->0@[j]@, term));
        }
        lemma_absent_term_no_result(files.drop_last(), term);
        if files[n].lines is Some {
            let lines = files[n].lines->0@;
            assert forall|j: int| 0 <= j < lines.len() implies !has_substring(
                #[trigger] lines[j]@,
                term,
            ) by {
                assert(files[n].lines is Some);
                assert(!has_substring(files[n].lines->0@[j]@, term));
            }
            lemma_no_line_matches(lines, term);
        }
        assert(search_result(files, term) =~= Seq::<String>::empty());
    }
}

/// A file that could not be read does not stop the search: wherever it
/// stands in the walk, the other files give the same result as without it.
pub proof fn lemma_unreadable_file_skipped(
    files: Seq<NoteFile>,
    term: Seq<char>,
    i: int,
    f: NoteFile,
)
    requires
        0 <= i <= files.len(),
        f.lines is None,
    ensures
        search_result(files.insert(i, f), term) == search_result(files, term),
{
    let a = files.subrange(0, i);
    let b = files.subrange(i, files.len() as int);
    assert(files.insert(i, f) =~= (a + seq![f]) + b);
    assert(files =~= a + b);
    lemma_search_concat(a + seq![f], b, term);
    lemma_search_concat(a, seq![f], term);
    lemma_search_concat(a, b, term);
    lemma_search_single(f, term);
    assert(search_result(a, term) + Seq::<String>::empty() =~= search_result(a, term));
}

} // verus!
