//! What is written out: all chapters in one text, one file per chapter, or
//! the list of chapter links.

use crate::chapter_map::{chapter_entries, chapter_map_entry, chapter_map_len, entry_values};
use crate::text::{chars_of, decimal, extend_chars, join_rows, joined, push_decimal, rows_view, string_of};
use indexmap::IndexMap;
use vstd::prelude::*;

verus! {

/// What separates two chapters in a single output file.
pub const CHAPTER_SEPARATOR: &'static str = "\n\n\n";

/// The texts of the chapters, in order, as character vectors.
fn chapter_rows(chapters: &IndexMap<u32, String>) -> (r: Vec<Vec<char>>)
    ensures
        rows_view(r@) == entry_values(chapter_entries(*chapters)),
{
    let n = chapter_map_len(chapters);
    let ghost values = entry_values(chapter_entries(*chapters));
    let mut r: Vec<Vec<char>> = Vec::new();
    let mut i: usize = 0;
    while i < n
        invariant
            n == chapter_entries(*chapters).len(),
            values == entry_values(chapter_entries(*chapters)),
            i <= n,
            rows_view(r@) == values.take(i as int),
        decreases n - i,
    {
        match chapter_map_entry(chapters, i) {
            Some((_, text)) => {
                let row = chars_of(text.as_str());
                let ghost before = r@;
                let ghost rv = row@;
                r.push(row);
                assert(rows_view(r@) =~= rows_view(before).push(rv));
                assert(values.take(i + 1) =~= values.take(i as int).push(rv));
            },
            None => {},
        }
        i += 1;
    }
    assert(values.take(n as int) =~= values);
    r
}

/// All chapters in one text: their texts in order, separated by two blank
/// lines.
pub fn single_file_text(chapters: &IndexMap<u32, String>) -> (r: String)
    ensures
        r@ == joined(entry_values(chapter_entries(*chapters)), CHAPTER_SEPARATOR@),
{
    let rows = chapter_rows(chapters);
    let sep = chars_of(CHAPTER_SEPARATOR);
    string_of(&join_rows(&rows, &sep))
}

/// The path of the file of chapter `number` in directory `dir`.
pub open spec fn chapter_path(dir: Seq<char>, number: u32) -> Seq<char> {
    dir + seq!['/'] + decimal(number as nat)
}

/// The file of each chapter in directory `dir`: its path, named by the
/// chapter's number, and its text, in the chapters' order.
pub fn chapter_files(dir: &str, chapters: &IndexMap<u32, String>) -> (r: Vec<(String, String)>)
    ensures
        r.len() == chapter_entries(*chapters).len(),
        forall|i: int|
            0 <= i < r.len() ==> #[trigger] r@[i].0@ == chapter_path(
                dir@,
                chapter_entries(*chapters)[i].0,
            ) && r@[i].1@ == chapter_entries(*chapters)[i].1,
{
    let n = chapter_map_len(chapters);
    let dir_chars = chars_of(dir);
    let mut r: Vec<(String, String)> = Vec::new();
    let mut i: usize = 0;
    while i < n
        invariant
            n == chapter_entries(*chapters).len(),
            dir_chars@ == dir@,
            i <= n,
            r.len() == i,
            forall|j: int|
                0 <= j < i ==> #[trigger] r@[j].0@ == chapter_path(
                    dir@,
                    chapter_entries(*chapters)[j].0,
                ) && r@[j].1@ == chapter_entries(*chapters)[j].1,
        decreases n - i,
    {
        match chapter_map_entry(chapters, i) {
            Some((number, text)) => {
                let mut path = Vec::new();
                extend_chars(&mut path, &dir_chars);
                path.push('/');
                push_decimal(&mut path, number as u64);
                assert(path@ =~= chapter_path(dir@, number));
                r.push((string_of(&path), text));
            },
            None => {},
        }
        i += 1;
    }
    r
}

/// Distinct chapters of one directory get distinct files.
pub proof fn lemma_chapter_paths_distinct(dir: Seq<char>, a: u32, b: u32)
    requires
        a != b,
    ensures
        chapter_path(dir, a) != chapter_path(dir, b),
{
    if chapter_path(dir, a) == chapter_path(dir, b) {
        let prefix = dir + seq!['/'];
        assert(chapter_path(dir, a).skip(prefix.len() as int) =~= decimal(a as nat));
        assert(chapter_path(dir, b).skip(prefix.len() as int) =~= decimal(b as nat));
        crate::text::lemma_decimal_injective(a as nat, b as nat);
    }
}

/// The chapter links, one per line.
pub fn links_text(links: &Vec<String>) -> (r: String)
    ensures
        r@ == joined(links@.map_values(|l: String| l@), seq!['\n']),
{
    let mut rows: Vec<Vec<char>> = Vec::new();
    let mut i: usize = 0;
    while i < links.len()
        invariant
            i <= links.len(),
            rows_view(rows@) == links@.take(i as int).map_values(|l: String| l@),
        decreases links.len() - i,
    {
        let row = chars_of(links[i].as_str());
        let ghost before = rows@;
        let ghost rv = row@;
        rows.push(row);
        assert(rows_view(rows@) =~= rows_view(before).push(rv));
        assert(links@.take(i + 1).map_values(|l: String| l@) =~= links@.take(i as int).map_values(
            |l: String| l@,
        ).push(rv));
        i += 1;
    }
    assert(links@.take(links.len() as int) =~= links@);
    let newline: Vec<char> = vec!['\n'];
    assert(newline@ =~= seq!['\n']);
    string_of(&join_rows(&rows, &newline))
}

} // verus!
