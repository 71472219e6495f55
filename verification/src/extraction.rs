//! Locating the metadata block at the head of a document.
//!
//! A block opens with a three-character fence on its own line at the very
//! start of the document — `+++` for the TOML format, `---` for the YAML
//! format — and closes with the same fence on its own line. A fence line may
//! carry trailing spaces or tabs, nothing else.

use vstd::prelude::*;
use crate::errors::PipelineError;
use crate::text::chars_of;
use crate::text::string_from_range;

verus! {

/// Spaces and horizontal tabs, the only characters a fence line may carry
/// after its three markers.
pub open spec fn is_space_or_tab(c: char) -> bool {
    c == ' ' || c == '\t'
}

/// The index of the first newline at or after `i`, or the text's length when
/// no newline follows.
pub open spec fn line_end(doc: Seq<char>, i: int) -> int
    decreases doc.len() - i,
{
    if !(0 <= i < doc.len()) {
        doc.len() as int
    } else if doc[i] == '\n' {
        i
    } else {
        line_end(doc, i + 1)
    }
}

/// `line_end` stays within the text and marks the first newline.
pub proof fn lemma_line_end(doc: Seq<char>, i: int)
    requires
        0 <= i <= doc.len(),
    ensures
        i <= line_end(doc, i) <= doc.len(),
        forall|k: int| i <= k < line_end(doc, i) ==> #[trigger] doc[k] != '\n',
        line_end(doc, i) < doc.len() ==> doc[line_end(doc, i)] == '\n',
    decreases doc.len() - i,
{
    if i < doc.len() && doc[i] != '\n' {
        lemma_line_end(doc, i + 1);
    }
}

/// Whether the line starting at `i` is a fence line for marker `m`: exactly
/// three markers, followed only by spaces or tabs up to the end of the line.
pub open spec fn is_fence_at(doc: Seq<char>, i: int, m: char) -> bool {
    let e = line_end(doc, i);
    &&& e - i >= 3
    &&& doc[i] == m
    &&& doc[i + 1] == m
    &&& doc[i + 2] == m
    &&& forall|k: int| i + 3 <= k < e ==> is_space_or_tab(#[trigger] doc[k])
}

/// The start index of the first closing fence line at or after `i`, or `-1`
/// when no line up to the end of the text is a fence line.
pub open spec fn find_close(doc: Seq<char>, i: int, m: char) -> int
    decreases doc.len() - i + 1,
{
    if i < 0 || i >= doc.len() {
        -1
    } else if is_fence_at(doc, i, m) {
        i
    } else {
        proof {
            lemma_line_end(doc, i);
        }
        find_close(doc, line_end(doc, i) + 1, m)
    }
}

/// What a scan of the document head finds.
pub enum FrontmatterScan {
    /// A closed TOML block; the payload is its raw text, the lines between
    /// the fences.
    TomlBlock(Seq<char>),
    /// A closed YAML block.
    YamlBlock,
    /// No closed block at the very start of the document.
    Missing,
}

/// The raw text between an opening fence line ending at `open_end` and a
/// closing fence line starting at `close_start`: the characters between the
/// opening fence's newline and the newline before the closing fence.
pub open spec fn block_value(doc: Seq<char>, open_end: int, close_start: int) -> Seq<char> {
    if close_start <= open_end + 1 {
        Seq::empty()
    } else {
        doc.subrange(open_end + 1, close_start - 1)
    }
}

/// The result of scanning the head of `doc` for a metadata block.
pub open spec fn scan_frontmatter(doc: Seq<char>) -> FrontmatterScan {
    if is_fence_at(doc, 0, '+') {
        let e = line_end(doc, 0);
        let c = find_close(doc, e + 1, '+');
        if c < 0 {
            FrontmatterScan::Missing
        } else {
            FrontmatterScan::TomlBlock(block_value(doc, e, c))
        }
    } else if is_fence_at(doc, 0, '-') {
        let e = line_end(doc, 0);
        let c = find_close(doc, e + 1, '-');
        if c < 0 {
            FrontmatterScan::Missing
        } else {
            FrontmatterScan::YamlBlock
        }
    } else {
        FrontmatterScan::Missing
    }
}

/// The index of the first newline at or after `i`, executable form.
fn line_end_exec(cs: &Vec<char>, i: usize) -> (j: usize)
    requires
        i <= cs@.len(),
    ensures
        j == line_end(cs@, i as int),
        i <= j <= cs@.len(),
    decreases cs@.len() - i,
{
    let n = cs.len();
    let mut j = i;
    while j < n && cs[j] != '\n'
        invariant
            i <= j <= n,
            n == cs@.len(),
            line_end(cs@, i as int) == line_end(cs@, j as int),
        decreases n - j,
    {
        j = j + 1;
    }
    proof {
        lemma_line_end(cs@, j as int);
    }
    j
}

/// Whether the line starting at `i` is a fence line for `m`, executable form.
fn is_fence_exec(cs: &Vec<char>, i: usize, m: char) -> (r: bool)
    requires
        i <= cs@.len(),
    ensures
        r == is_fence_at(cs@, i as int, m),
{
    let e = line_end_exec(cs, i);
    if e - i < 3 {
        return false;
    }
    if cs[i] != m || cs[i + 1] != m || cs[i + 2] != m {
        return false;
    }
    let mut k = i + 3;
    while k < e
        invariant
            i + 3 <= k <= e,
            e == line_end(cs@, i as int),
            e <= cs@.len(),
            forall|q: int| i + 3 <= q < k as int ==> is_space_or_tab(#[trigger] cs@[q]),
        decreases e - k,
    {
        let c = cs[k];
        if c != ' ' && c != '\t' {
            return false;
        }
        k = k + 1;
    }
    true
}

/// The start of the first closing fence line at or after `i`, executable
/// form: `None` exactly when the scan reports no closing fence.
fn find_close_exec(cs: &Vec<char>, i: usize, m: char) -> (r: Option<usize>)
    requires
        i <= cs@.len(),
    ensures
        match r {
            Some(c) => find_close(cs@, i as int, m) == c as int && c < cs@.len(),
            None => find_close(cs@, i as int, m) == -1,
        },
{
    let n = cs.len();
    let mut j = i;
    loop
        invariant
            i <= j <= n,
            n == cs@.len(),
            find_close(cs@, i as int, m) == find_close(cs@, j as int, m),
        decreases n - j,
    {
        if j >= n {
            return None;
        }
        if is_fence_exec(cs, j, m) {
            return Some(j);
        }
        let e = line_end_exec(cs, j);
        proof {
            lemma_line_end(cs@, j as int);
        }
        if e >= n {
            proof {
                assert(find_close(cs@, e as int + 1, m) == -1);
            }
            return None;
        }
        j = e + 1;
    }
}

/// Returns the raw text of the TOML metadata block at the head of the
/// document.
///
/// Fails with `FrontmatterMissing` when no closed block opens the document,
/// and with `FrontmatterTypeMismatch` when the block carries the YAML fence
/// instead of the TOML one.
pub fn extract_md_frontmatter(input: &str) -> (r: Result<String, PipelineError>)
    ensures
        match scan_frontmatter(input@) {
            FrontmatterScan::TomlBlock(v) => r matches Ok(s) && s@ == v,
            FrontmatterScan::YamlBlock => r matches Err(e) && e is FrontmatterTypeMismatch,
            FrontmatterScan::Missing => r matches Err(e) && e is FrontmatterMissing,
        },
{
    let cs = chars_of(input);
    let n = cs.len();
    if is_fence_exec(&cs, 0, '+') {
        let e = line_end_exec(&cs, 0);
        if e >= n {
            return Err(PipelineError::FrontmatterMissing);
        }
        match find_close_exec(&cs, e + 1, '+') {
            None => Err(PipelineError::FrontmatterMissing),
            Some(c) => {
                if c <= e + 1 {
                    Ok(String::new())
                } else {
                    Ok(string_from_range(&cs, e + 1, c - 1))
                }
            },
        }
    } else if is_fence_exec(&cs, 0, '-') {
        let e = line_end_exec(&cs, 0);
        if e >= n {
            return Err(PipelineError::FrontmatterMissing);
        }
        match find_close_exec(&cs, e + 1, '-') {
            None => Err(PipelineError::FrontmatterMissing),
            Some(_) => Err(PipelineError::FrontmatterTypeMismatch),
        }
    } else {
        Err(PipelineError::FrontmatterMissing)
    }
}

} // verus!
