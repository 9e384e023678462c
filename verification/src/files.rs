//! On-device file listing: `ls -la` parsing and ordering, and the
//! transfer-command interpretations.

use vstd::prelude::*;
use vstd::multiset::Multiset;
use vstd::string::StringExecFns;
use crate::error::AppError;
use crate::num::{parse_u64_spec, parse_u64, lower_seq, lower_seq_spec, lex_le, lex_le_spec,
    lemma_lex_le_total, lemma_lex_le_trans};
use crate::runner::CommandResult;
use crate::text::{
    chars_of, string_of, starts_with, starts_with_spec, trim_chars, trim_spec, lines_of,
    lines_spec, split_ws, split_ws_spec, find_sub, find_sub_spec,
};

verus! {

broadcast use
    vstd::seq_lib::group_to_multiset_ensures,
    vstd::multiset::group_multiset_axioms,
    vstd::multiset::lemma_multiset_empty_len,
;

/// Mathematical image of a [`FileInfo`].
pub ghost struct FileInfoV {
    pub name: Seq<char>,
    pub is_directory: bool,
    pub size: Option<u64>,
    pub permissions: Option<Seq<char>>,
}

/// One entry of a directory listing.
#[derive(Debug, Clone)]
pub struct FileInfo {
    pub name: String,
    pub is_directory: bool,
    pub size: Option<u64>,
    pub permissions: Option<String>,
}

impl View for FileInfo {
    type V = FileInfoV;

    open spec fn view(&self) -> FileInfoV {
        FileInfoV {
            name: self.name@,
            is_directory: self.is_directory,
            size: self.size,
            permissions: match self.permissions {
                Some(ref p) => Some(p@),
                None => None,
            },
        }
    }
}

impl DeepView for FileInfo {
    type V = FileInfoV;

    open spec fn deep_view(&self) -> FileInfoV {
        self.view()
    }
}

/// The tokens re-joined with single spaces.
pub open spec fn join_spaced(parts: Seq<Seq<char>>) -> Seq<char>
    decreases parts.len(),
{
    if parts.len() == 0 {
        Seq::empty()
    } else if parts.len() == 1 {
        parts[0]
    } else {
        parts[0] + seq![' '] + join_spaced(parts.skip(1))
    }
}

/// The name with a symlink arrow and its target cut off.
pub open spec fn cut_symlink(name: Seq<char>) -> Seq<char> {
    match find_sub_spec(name, " -> "@) {
        Some(i) => name.take(i),
        None => name,
    }
}

/// One `ls -la` line: seven or more whitespace fields make an entry
/// (permissions, links, owner, group, size, date, time, name);
/// blank lines, the `total` banner, and the dot entries are skipped.
/// Directories report no size; a name containing spaces is joined
/// back; a symlink name is cut at the arrow.
pub open spec fn parse_ls_line(line: Seq<char>) -> Option<FileInfoV> {
    let lt = trim_spec(line);
    if lt.len() == 0 || starts_with_spec(lt, "total"@) {
        None
    } else {
        let parts = split_ws_spec(line);
        if parts.len() < 7 {
            None
        } else {
            let name0 = if parts.len() > 7 {
                join_spaced(parts.skip(7))
            } else {
                parts[6]
            };
            if name0 == "."@ || name0 == ".."@ {
                None
            } else {
                let is_dir = starts_with_spec(parts[0], "d"@);
                Some(
                    FileInfoV {
                        name: cut_symlink(name0),
                        is_directory: is_dir,
                        size: if is_dir {
                            None
                        } else {
                            parse_u64_spec(parts[4])
                        },
                        permissions: Some(parts[0]),
                    },
                )
            }
        }
    }
}

pub open spec fn parse_ls_lines(ls: Seq<Seq<char>>) -> Seq<FileInfoV>
    decreases ls.len(),
{
    if ls.len() == 0 {
        Seq::empty()
    } else {
        match parse_ls_line(ls[0]) {
            Some(f) => seq![f] + parse_ls_lines(ls.skip(1)),
            None => parse_ls_lines(ls.skip(1)),
        }
    }
}

pub open spec fn parse_ls_spec(out: Seq<char>) -> Seq<FileInfoV> {
    parse_ls_lines(lines_spec(out))
}

/// The listing order: directories before files, then by
/// case-folded name.
pub open spec fn file_le(a: FileInfoV, b: FileInfoV) -> bool {
    if a.is_directory != b.is_directory {
        a.is_directory
    } else {
        lex_le_spec(lower_seq_spec(a.name), lower_seq_spec(b.name))
    }
}

pub proof fn lemma_file_le_total(a: FileInfoV, b: FileInfoV)
    ensures
        file_le(a, b) || file_le(b, a),
{
    if a.is_directory == b.is_directory {
        lemma_lex_le_total(lower_seq_spec(a.name), lower_seq_spec(b.name));
    }
}

pub proof fn lemma_file_le_trans(a: FileInfoV, b: FileInfoV, c: FileInfoV)
    requires
        file_le(a, b),
        file_le(b, c),
    ensures
        file_le(a, c),
{
    if a.is_directory == b.is_directory && b.is_directory == c.is_directory {
        lemma_lex_le_trans(
            lower_seq_spec(a.name),
            lower_seq_spec(b.name),
            lower_seq_spec(c.name),
        );
    }
}

fn file_le_exec(a: &FileInfo, b: &FileInfo) -> (r: bool)
    ensures
        r == file_le(a@, b@),
{
    if a.is_directory != b.is_directory {
        a.is_directory
    } else {
        let an = chars_of(a.name.as_str());
        let bn = chars_of(b.name.as_str());
        let al = lower_seq(an.as_slice());
        let bl = lower_seq(bn.as_slice());
        lex_le(al.as_slice(), bl.as_slice())
    }
}

fn parse_one_ls_line(line: &[char]) -> (r: Option<FileInfo>)
    ensures
        match (r, parse_ls_line(line@)) {
            (Some(f), Some(fv)) => f@ == fv,
            (None, None) => true,
            _ => false,
        },
{
    let lt = trim_chars(line);
    let total_lit = chars_of("total");
    if lt.len() == 0 || starts_with(lt.as_slice(), total_lit.as_slice()) {
        return None;
    }
    let parts = split_ws(line);
    if parts.len() < 7 {
        return None;
    }
    proof {
        assert(parts@[0]@ =~= split_ws_spec(line@)[0]);
        assert(parts@[4]@ =~= split_ws_spec(line@)[4]);
        assert(parts@[6]@ =~= split_ws_spec(line@)[6]);
    }
    let name0: Vec<char> = if parts.len() > 7 {
        let mut joined: Vec<char> = Vec::new();
        let mut i: usize = 7;
        let n = parts.len();
        while i < n
            invariant
                7 <= i <= n,
                n == parts@.len(),
                n > 7,
                parts.deep_view().len() == n,
                join_spaced(parts.deep_view().skip(7)) == joined@ + (if i < n {
                    (if i > 7 {
                        seq![' ']
                    } else {
                        Seq::<char>::empty()
                    }) + join_spaced(parts.deep_view().skip(i as int))
                } else {
                    Seq::<char>::empty()
                }),
            decreases n - i,
        {
            let ghost rest = parts.deep_view().skip(i as int);
            proof {
                assert(rest[0] == parts.deep_view()[i as int]);
                assert(rest.skip(1) =~~= parts.deep_view().skip(i + 1));
                assert(parts@[i as int]@ =~= parts.deep_view()[i as int]);
            }
            if i > 7 {
                joined.push(' ');
            }
            let tok = &parts[i];
            let mut k: usize = 0;
            let ghost before = joined@;
            while k < tok.len()
                invariant
                    0 <= k <= tok@.len(),
                    joined@ == before + tok@.take(k as int),
                decreases tok@.len() - k,
            {
                joined.push(tok[k]);
                proof {
                    assert(joined@ =~= before + tok@.take(k + 1 as int));
                }
                k = k + 1;
            }
            proof {
                assert(tok@.take(tok@.len() as int) =~= tok@);
                if i + 1 < n {
                    assert(join_spaced(rest) == rest[0] + seq![' '] + join_spaced(rest.skip(1)));
                } else {
                    assert(rest.len() == 1);
                    assert(join_spaced(rest) == rest[0]);
                }
            }
            i = i + 1;
        }
        joined
    } else {
        let mut v: Vec<char> = Vec::new();
        let tok = &parts[6];
        let mut k: usize = 0;
        while k < tok.len()
            invariant
                0 <= k <= tok@.len(),
                v@ == tok@.take(k as int),
            decreases tok@.len() - k,
        {
            v.push(tok[k]);
            proof {
                assert(v@ =~= tok@.take(k + 1 as int));
            }
            k = k + 1;
        }
        proof {
            assert(tok@.take(tok@.len() as int) =~= tok@);
        }
        v
    };
    proof {
        if parts@.len() > 7 {
            assert(name0@ == join_spaced(parts.deep_view().skip(7)));
        }
    }
    let dot = chars_of(".");
    let dotdot = chars_of("..");
    if crate::text::chars_eq(name0.as_slice(), dot.as_slice()) || crate::text::chars_eq(
        name0.as_slice(),
        dotdot.as_slice(),
    ) {
        return None;
    }
    let arrow = chars_of(" -> ");
    let name: Vec<char> = match find_sub(name0.as_slice(), arrow.as_slice()) {
        Some(idx) => {
            let cut = vstd::slice::slice_subrange(name0.as_slice(), 0, idx);
            proof {
                assert(cut@ =~= name0@.take(idx as int));
            }
            vstd::slice::slice_to_vec(cut)
        },
        None => name0,
    };
    let d_lit = chars_of("d");
    let is_dir = starts_with(parts[0].as_slice(), d_lit.as_slice());
    let size: Option<u64> = if is_dir {
        None
    } else {
        parse_u64(parts[4].as_slice())
    };
    Some(
        FileInfo {
            name: string_of(name.as_slice()),
            is_directory: is_dir,
            size,
            permissions: Some(string_of(parts[0].as_slice())),
        },
    )
}

pub open spec fn sorted_files(s: Seq<FileInfoV>) -> bool {
    forall|i: int, j: int| 0 <= i < j < s.len() ==> file_le(#[trigger] s[i], #[trigger] s[j])
}

/// Order a listing: directories first, then case-folded names; the
/// result is a permutation of the input.
fn sort_files(input: Vec<FileInfo>) -> (r: Vec<FileInfo>)
    ensures
        sorted_files(r.deep_view()),
        r.deep_view().to_multiset() == input.deep_view().to_multiset(),
{
    let mut work = input;
    let mut out: Vec<FileInfo> = Vec::new();
    proof {
        assert(out.deep_view() =~~= Seq::<FileInfoV>::empty());
        assert(out.deep_view().to_multiset().add(work.deep_view().to_multiset())
            =~= work.deep_view().to_multiset());
    }
    let ghost total = work.deep_view().to_multiset();
    loop
        invariant_except_break
            out.deep_view().to_multiset().add(work.deep_view().to_multiset()) == total,
            sorted_files(out.deep_view()),
            forall|i: int, j: int| 0 <= i < out.deep_view().len() && 0 <= j
                < work.deep_view().len() ==> file_le(
                #[trigger] out.deep_view()[i],
                #[trigger] work.deep_view()[j],
            ),
        ensures
            work.deep_view().len() == 0,
            out.deep_view().to_multiset() == total,
            sorted_files(out.deep_view()),
        decreases work@.len(),
    {
        if work.len() == 0 {
            proof {
                assert(work.deep_view().to_multiset().len() == 0);
                assert(work.deep_view().to_multiset() =~= Multiset::<FileInfoV>::empty());
                assert(out.deep_view().to_multiset().add(Multiset::<FileInfoV>::empty())
                    =~= out.deep_view().to_multiset());
            }
            break;
        }
        proof {
            lemma_file_le_total(work.deep_view()[0], work.deep_view()[0]);
        }
        let mut m: usize = 0;
        let mut k: usize = 1;
        while k < work.len()
            invariant
                0 <= m < k <= work@.len(),
                work@.len() == work.deep_view().len(),
                forall|q: int| 0 <= q < k ==> file_le(
                    work.deep_view()[m as int],
                    #[trigger] work.deep_view()[q],
                ),
            decreases work@.len() - k,
        {
            if !file_le_exec(&work[m], &work[k]) {
                proof {
                    lemma_file_le_total(work.deep_view()[m as int], work.deep_view()[k as int]);
                    assert(work@[m as int]@ == work.deep_view()[m as int]);
                    assert(work@[k as int]@ == work.deep_view()[k as int]);
                    assert(file_le(work.deep_view()[k as int], work.deep_view()[m as int]));
                    assert forall|q: int| 0 <= q < k + 1 implies file_le(
                        work.deep_view()[k as int],
                        #[trigger] work.deep_view()[q],
                    ) by {
                        if q < k {
                            lemma_file_le_trans(
                                work.deep_view()[k as int],
                                work.deep_view()[m as int],
                                work.deep_view()[q],
                            );
                        } else {
                            lemma_file_le_total(
                                work.deep_view()[k as int],
                                work.deep_view()[k as int],
                            );
                        }
                    }
                }
                m = k;
            } else {
                proof {
                    assert(work@[m as int]@ == work.deep_view()[m as int]);
                    assert(work@[k as int]@ == work.deep_view()[k as int]);
                }
            }
            k = k + 1;
        }
        let ghost work_before = work.deep_view();
        let ghost out_before = out.deep_view();
        let chosen = work.remove(m);
        let ghost cv = chosen@;
        proof {
            assert(cv == work_before[m as int]);
            assert(work.deep_view() =~~= work_before.remove(m as int));
            assert(work_before.remove(m as int).to_multiset() =~= work_before.to_multiset().remove(
                work_before[m as int],
            ));
            assert(work.deep_view().to_multiset() == work_before.to_multiset().remove(cv));
        }
        out.push(chosen);
        proof {
            assert(out_before.push(cv).to_multiset() =~= out_before.to_multiset().insert(cv));
            assert(out.deep_view() =~~= out_before.push(cv));
            assert(out.deep_view().to_multiset() == out_before.to_multiset().insert(cv));
            assert(work_before.to_multiset().count(cv) >= 1) by {
                assert(work_before[m as int] == cv);
                assert(work_before.contains(cv));
            }
            assert(out.deep_view().to_multiset().add(work.deep_view().to_multiset())
                =~= out_before.to_multiset().add(work_before.to_multiset()));
            // the new element follows everything already placed
            assert forall|i: int, j: int| 0 <= i < j < out.deep_view().len() implies file_le(
                #[trigger] out.deep_view()[i],
                #[trigger] out.deep_view()[j],
            ) by {
                if j == out.deep_view().len() - 1 {
                    assert(out.deep_view()[i] == out_before[i]);
                }
            }
            // everything left in work still follows the new element
            assert forall|i: int, j: int| 0 <= i < out.deep_view().len() && 0 <= j
                < work.deep_view().len() implies file_le(
                #[trigger] out.deep_view()[i],
                #[trigger] work.deep_view()[j],
            ) by {
                if i < out.deep_view().len() - 1 {
                    assert(out.deep_view()[i] == out_before[i]);
                    if j < m {
                        assert(work.deep_view()[j] == work_before[j]);
                    } else {
                        assert(work.deep_view()[j] == work_before[j + 1]);
                    }
                } else {
                    assert(out.deep_view()[i] == cv);
                    if j < m {
                        assert(work.deep_view()[j] == work_before[j]);
                    } else {
                        assert(work.deep_view()[j] == work_before[j + 1]);
                    }
                }
            }
        }
    }
    out
}

/// Parse `ls -la` output: every well-formed entry, ordered with
/// directories first and names case-folded; exactly the entries of
/// the listing (a permutation of their appearance order).
pub fn parse_ls_output(output: &str) -> (r: Vec<FileInfo>)
    ensures
        sorted_files(r.deep_view()),
        r.deep_view().to_multiset() == parse_ls_spec(output@).to_multiset(),
{
    let cs = chars_of(output);
    let ls = lines_of(cs.as_slice());
    let mut entries: Vec<FileInfo> = Vec::new();
    let mut i: usize = 0;
    proof {
        assert(lines_spec(output@).skip(0) =~~= lines_spec(output@));
        assert(entries.deep_view() =~~= Seq::<FileInfoV>::empty());
        assert(entries.deep_view() + parse_ls_lines(lines_spec(output@)) =~~= parse_ls_lines(
            lines_spec(output@)));
    }
    while i < ls.len()
        invariant
            0 <= i <= ls@.len(),
            ls.deep_view() == lines_spec(output@),
            ls@.len() == ls.deep_view().len(),
            parse_ls_spec(output@) == entries.deep_view() + parse_ls_lines(
                ls.deep_view().skip(i as int),
            ),
        decreases ls@.len() - i,
    {
        let ghost rest = ls.deep_view().skip(i as int);
        proof {
            assert(rest[0] == ls.deep_view()[i as int]);
            assert(rest.skip(1) =~~= ls.deep_view().skip(i + 1));
            assert(ls@[i as int]@ =~= ls.deep_view()[i as int]);
        }
        match parse_one_ls_line(ls[i].as_slice()) {
            Some(f) => {
                let ghost prev = entries.deep_view();
                let ghost fv = f@;
                entries.push(f);
                proof {
                    assert(entries.deep_view() =~~= prev.push(fv));
                    assert(prev + parse_ls_lines(rest) =~~= entries.deep_view() + parse_ls_lines(
                        rest.skip(1)));
                }
            },
            None => {},
        }
        i = i + 1;
    }
    proof {
        assert(ls.deep_view().skip(ls@.len() as int) =~~= Seq::<Seq<char>>::empty());
        assert(entries.deep_view() + Seq::<FileInfoV>::empty() =~~= entries.deep_view());
    }
    sort_files(entries)
}

/// Interpret a `ls -la` run.
pub fn list_files(output: &CommandResult) -> (r: Result<Vec<FileInfo>, AppError>)
    ensures
        output@.success ==> (r matches Ok(v) && sorted_files(v.deep_view())
            && v.deep_view().to_multiset() == parse_ls_spec(output@.stdout).to_multiset()),
        !output@.success ==> (r matches Err(e) && e@.code == "LIST_FILES_FAILED"@),
{
    if !output.success {
        return Err(AppError::new("LIST_FILES_FAILED", "List files failed"));
    }
    Ok(parse_ls_output(output.stdout.as_str()))
}

/// Interpret a `push` run: success hands back the tool's report.
pub fn push_file(output: &CommandResult) -> (r: Result<String, AppError>)
    ensures
        output@.success ==> (r matches Ok(v) && v@ == output@.stdout),
        !output@.success ==> (r matches Err(e) && e@.code == "PUSH_FAILED"@),
{
    if output.success {
        Ok(output.stdout.clone())
    } else {
        Err(AppError::new("PUSH_FAILED", "Push failed"))
    }
}

/// Interpret a `pull` run.
pub fn pull_file(output: &CommandResult) -> (r: Result<String, AppError>)
    ensures
        output@.success ==> (r matches Ok(v) && v@ == output@.stdout),
        !output@.success ==> (r matches Err(e) && e@.code == "PULL_FAILED"@),
{
    if output.success {
        Ok(output.stdout.clone())
    } else {
        Err(AppError::new("PULL_FAILED", "Pull failed"))
    }
}

/// Interpret a `rm -rf` run.
pub fn delete_remote_file(output: &CommandResult) -> (r: Result<(), AppError>)
    ensures
        output@.success ==> r is Ok,
        !output@.success ==> (r matches Err(e) && e@.code == "DELETE_FAILED"@),
{
    if output.success {
        Ok(())
    } else {
        Err(AppError::new("DELETE_FAILED", "Delete failed"))
    }
}

/// Interpret a `mkdir -p` run.
pub fn create_remote_directory(output: &CommandResult) -> (r: Result<(), AppError>)
    ensures
        output@.success ==> r is Ok,
        !output@.success ==> (r matches Err(e) && e@.code == "MKDIR_FAILED"@),
{
    if output.success {
        Ok(())
    } else {
        Err(AppError::new("MKDIR_FAILED", "Create directory failed"))
    }
}

} // verus!
