//! Deterministic content chunking: a file's text is split into upload
//! units ("blobs") bounded by a maximum line count.
//!
//! A file whose line count fits the bound yields exactly one blob under
//! the original path; a larger file yields `ceil(lines / max_lines)`
//! blobs whose paths carry a 1-based chunk marker, and whose contents,
//! concatenated in order, reproduce the file byte for byte.

use vstd::prelude::*;
use vstd::arithmetic::div_mod::lemma_fundamental_div_mod;
use vstd::arithmetic::div_mod::lemma_fundamental_div_mod_converse;
use vstd::string::StrSliceExecFns;
use vstd::string::StringExecFns;

use crate::strutil::concat_seqs;
use crate::strutil::dec_digits;
use crate::strutil::lemma_concat_seqs_add;
use crate::strutil::lemma_concat_seqs_singleton;
use crate::strutil::split_inclusive_newlines;
use crate::strutil::split_lines_spec;
use crate::strutil::u64_to_dec;

verus! {

/// One unit of file content sent to the remote indexing service: a whole
/// file, or one line-bounded chunk of a large file.
#[derive(Debug, PartialEq)]
pub struct UploadBlob {
    /// The file path, possibly suffixed with a chunk marker.
    pub path: String,
    /// The verbatim text of the file or chunk.
    pub content: String,
}

impl Clone for UploadBlob {
    /// Cloning a blob keeps both its path and its content.
    fn clone(&self) -> (r: Self)
        ensures
            r == *self,
    {
        UploadBlob { path: self.path.clone(), content: self.content.clone() }
    }
}

/// The contents of a list of blobs, as character sequences.
pub open spec fn blob_contents(bs: Seq<UploadBlob>) -> Seq<Seq<char>> {
    bs.map_values(|b: UploadBlob| b.content@)
}

/// How many chunks a file of `total` lines needs under a bound of `max`
/// lines per chunk: the ceiling of `total / max`.
pub open spec fn chunk_count_spec(total: int, max: int) -> int {
    (total + max - 1) / max
}

/// The marker appended to a chunk's path: 1-based index `i` of `n`.
pub open spec fn chunk_suffix(i: nat, n: nat) -> Seq<char> {
    "#chunk"@ + dec_digits(i) + "of"@ + dec_digits(n)
}

/// A count `q` with `total <= q * max < total + max` is exactly the chunk
/// count.
pub proof fn lemma_chunk_count_unique(q: int, total: int, max: int)
    requires
        max >= 1,
        total >= 1,
        total <= q * max,
        q * max < total + max,
    ensures
        q == chunk_count_spec(total, max),
{
    let r = total + max - 1 - q * max;
    lemma_fundamental_div_mod_converse(total + max - 1, max, q, r);
}

/// Splitting a string after every newline and joining the pieces gives
/// the string back.
pub proof fn lemma_split_lines_join(s: Seq<char>)
    ensures
        concat_seqs(split_lines_spec(s)) == s,
    decreases s.len(),
{
    if s.len() == 0 {
        assert(concat_seqs(split_lines_spec(s)) =~= s);
    } else if s[0] == '\n' {
        lemma_split_lines_join(s.drop_first());
        let rest = split_lines_spec(s.drop_first());
        lemma_concat_seqs_add(seq![seq!['\n']], rest);
        lemma_concat_seqs_singleton(seq!['\n']);
        assert(seq!['\n'] + s.drop_first() =~= s);
    } else {
        lemma_split_lines_join(s.drop_first());
        let rest = split_lines_spec(s.drop_first());
        if rest.len() == 0 {
            lemma_concat_seqs_singleton(seq![s[0]]);
            assert(s.drop_first() =~= Seq::<char>::empty());
            assert(seq![s[0]] =~= s);
        } else {
            lemma_concat_seqs_add(seq![seq![s[0]] + rest[0]], rest.drop_first());
            lemma_concat_seqs_singleton(seq![s[0]] + rest[0]);
            assert(concat_seqs(rest) == rest[0] + concat_seqs(rest.drop_first()));
            assert((seq![s[0]] + rest[0]) + concat_seqs(rest.drop_first()) =~= seq![s[0]] + (
            rest[0] + concat_seqs(rest.drop_first())));
            assert(seq![s[0]] + s.drop_first() =~= s);
        }
    }
}

/// Joining a contiguous range of pieces splits at any midpoint.
proof fn lemma_concat_subrange_split(ls: Seq<Seq<char>>, a: int, b: int, c: int)
    requires
        0 <= a <= b <= c <= ls.len(),
    ensures
        concat_seqs(ls.subrange(a, c)) == concat_seqs(ls.subrange(a, b)) + concat_seqs(
            ls.subrange(b, c),
        ),
{
    assert(ls.subrange(a, c) =~= ls.subrange(a, b) + ls.subrange(b, c));
    lemma_concat_seqs_add(ls.subrange(a, b), ls.subrange(b, c));
}

/// Splits file content into upload blobs, at most `max_lines` lines per
/// blob.
///
/// Content of no more than `max_lines` lines yields one blob carrying the
/// original path and the content unchanged.  Longer content yields
/// `ceil(lines / max_lines)` blobs: chunk `k` (0-based) holds lines
/// `[k * max_lines, min((k + 1) * max_lines, lines))` joined verbatim, and
/// its path is the original path with a marker naming chunk `k + 1` of the
/// total.  Concatenating all blob contents in order reproduces the input
/// exactly.  A bound of zero is a configuration error.
pub fn split_content_for_speed_test(path: &str, content: &str, max_lines: usize) -> (r: Result<
    Vec<UploadBlob>,
    String,
>)
    ensures
        r is Err <==> max_lines == 0,
        r matches Err(e) ==> e@ == "max_lines_per_blob must be positive"@,
        r matches Ok(bs) ==> {
            let ls = split_lines_spec(content@);
            let t = ls.len() as int;
            let m = max_lines as int;
            &&& concat_seqs(blob_contents(bs@)) == content@
            &&& t <= m ==> bs@.len() == 1 && bs@[0].path@ == path@ && bs@[0].content@ == content@
            &&& t > m ==> {
                &&& bs@.len() == chunk_count_spec(t, m)
                &&& forall|k: int|
                    0 <= k < bs@.len() ==> (#[trigger] bs@[k].path@) == path@ + chunk_suffix(
                        (k + 1) as nat,
                        bs@.len() as nat,
                    )
                &&& forall|k: int|
                    0 <= k < bs@.len() ==> (#[trigger] bs@[k].content@) == concat_seqs(
                        ls.subrange(k * m, if (k + 1) * m <= t { (k + 1) * m } else { t }),
                    )
            }
        },
{
    if max_lines == 0 {
        return Err("max_lines_per_blob must be positive".to_owned());
    }
    let lines: Vec<String> = split_inclusive_newlines(content);
    let total: usize = lines.len();
    let ghost ls = split_lines_spec(content@);
    proof {
        assert(lines.deep_view() == ls);
        assert(total == ls.len());
        lemma_split_lines_join(content@);
    }
    if total <= max_lines {
        let blob = UploadBlob { path: path.to_owned(), content: content.to_owned() };
        let mut bs: Vec<UploadBlob> = Vec::new();
        bs.push(blob);
        proof {
            assert(blob_contents(bs@) =~= seq![content@]);
            lemma_concat_seqs_singleton(content@);
        }
        return Ok(bs);
    }
    // total > max_lines >= 1
    let count: usize = if total % max_lines == 0 {
        total / max_lines
    } else {
        proof {
            vstd::arithmetic::div_mod::lemma_div_decreases(total as int, max_lines as int);
        }
        total / max_lines + 1
    };
    proof {
        let t = total as int;
        let m = max_lines as int;
        lemma_fundamental_div_mod(t, m);
        assert((t / m + 1) * m == (t / m) * m + m) by (nonlinear_arith);
        assert(total <= count * m);
        assert(count * m < t + m);
        lemma_chunk_count_unique(count as int, t, m);
    }
    let mut bs: Vec<UploadBlob> = Vec::new();
    let mut start: usize = 0;
    let mut idx: usize = 0;
    while start < total
        invariant
            1 <= max_lines,
            max_lines < total,
            total == ls.len(),
            lines.deep_view() == ls,
            lines@.len() == total,
            start <= total,
            (start < total && start == idx * (max_lines as int)) || (start == total && idx
                == count),
            idx <= count,
            count == chunk_count_spec(total as int, max_lines as int),
            total as int <= count * (max_lines as int),
            bs@.len() == idx,
            concat_seqs(blob_contents(bs@)) == concat_seqs(ls.subrange(0, start as int)),
            forall|k: int|
                0 <= k < idx ==> (#[trigger] bs@[k].path@) == path@ + chunk_suffix(
                    (k + 1) as nat,
                    count as nat,
                ),
            forall|k: int|
                0 <= k < idx ==> (#[trigger] bs@[k].content@) == concat_seqs(
                    ls.subrange(
                        k * (max_lines as int),
                        if (k + 1) * (max_lines as int) <= total as int {
                            (k + 1) * (max_lines as int)
                        } else {
                            total as int
                        },
                    ),
                ),
        decreases total - start,
    {
        let end: usize = if total - start > max_lines {
            start + max_lines
        } else {
            total
        };
        proof {
            assert((idx + 1) * (max_lines as int) == idx * (max_lines as int) + max_lines)
                by (nonlinear_arith);
            assert(idx < count) by (nonlinear_arith)
                requires
                    idx * (max_lines as int) < total as int,
                    total as int <= count * (max_lines as int),
                    max_lines >= 1,
            ;
        }
        let mut ck: String = String::new();
        let mut j: usize = start;
        proof {
            assert(ck@ =~= concat_seqs(ls.subrange(start as int, start as int)));
        }
        while j < end
            invariant
                start <= j <= end <= total,
                total == ls.len(),
                lines.deep_view() == ls,
                lines@.len() == total,
                ck@ == concat_seqs(ls.subrange(start as int, j as int)),
            decreases end - j,
        {
            let piece: &String = &lines[j];
            ck.append(piece.as_str());
            proof {
                assert(ls.subrange(start as int, j + 1 as int) =~= ls.subrange(
                    start as int,
                    j as int,
                ) + seq![ls[j as int]]);
                lemma_concat_seqs_add(ls.subrange(start as int, j as int), seq![ls[j as int]]);
                lemma_concat_seqs_singleton(ls[j as int]);
                assert(piece@ == ls[j as int]);
            }
            j = j + 1;
        }
        let mut cp: String = path.to_owned();
        cp.append("#chunk");
        let num: String = u64_to_dec((idx as u64) + 1);
        cp.append(num.as_str());
        cp.append("of");
        let den: String = u64_to_dec(count as u64);
        cp.append(den.as_str());
        proof {
            assert(cp@ =~= path@ + chunk_suffix((idx + 1) as nat, count as nat));
        }
        let ghost old_bs = bs@;
        bs.push(UploadBlob { path: cp, content: ck });
        proof {
            assert(blob_contents(bs@) =~= blob_contents(old_bs) + seq![ck@]);
            lemma_concat_seqs_add(blob_contents(old_bs), seq![ck@]);
            lemma_concat_seqs_singleton(ck@);
            lemma_concat_subrange_split(ls, 0, start as int, end as int);
            if end == total {
                lemma_chunk_count_unique((idx + 1) as int, total as int, max_lines as int);
            }
        }
        start = end;
        idx = idx + 1;
    }
    proof {
        assert(ls.subrange(0, total as int) =~= ls);
    }
    Ok(bs)
}

} // verus!
