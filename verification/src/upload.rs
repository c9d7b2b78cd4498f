//! Project-upload measurement support: the sampling plan, the blob list
//! built from per-file read outcomes, byte formatting, and the metric
//! display names.
//!
//! File reads and the upload requests happen in the surrounding
//! application; the sampling decision, the chunking of what was read,
//! and all counting are verified here.

use vstd::prelude::*;
use vstd::arithmetic::div_mod::lemma_div_decreases;
use vstd::arithmetic::div_mod::lemma_div_is_ordered;
use vstd::arithmetic::div_mod::lemma_div_pos_is_pos;
use vstd::arithmetic::div_mod::lemma_fundamental_div_mod;
use vstd::arithmetic::div_mod::lemma_fundamental_div_mod_converse;
use vstd::string::StringExecFns;

use crate::chunk::UploadBlob;
use crate::chunk::blob_contents;
use crate::chunk::split_content_for_speed_test;
use crate::strutil::concat_seqs;
use crate::strutil::dec_digits;
use crate::strutil::digit_char;
use crate::strutil::lemma_concat_seqs_add;
use crate::strutil::lemma_concat_seqs_singleton;
use crate::strutil::str_eq;
use crate::strutil::two_digits;
use crate::strutil::u64_to_dec;
use crate::strutil::usize_to_dec;

verus! {

// ---------------------------------------------------------------------------
// Byte formatting
// ---------------------------------------------------------------------------

/// A byte count scaled by a unit into a whole part and hundredths,
/// rounded half up, with the carry applied.
pub open spec fn scaled_parts_spec(b: int, unit: int) -> (int, int) {
    let w = b / unit;
    let f = (b % unit * 100 + unit / 2) / unit;
    if f == 100 {
        (w + 1, 0)
    } else {
        (w, f)
    }
}

/// Scales a byte count by a unit into a whole part and hundredths.
fn scaled_parts(b: u64, unit: u64) -> (r: (u64, u64))
    requires
        1024 <= unit <= 0x40000000,
        b >= unit,
    ensures
        r.0 == scaled_parts_spec(b as int, unit as int).0,
        r.1 == scaled_parts_spec(b as int, unit as int).1,
        r.1 < 100,
{
    proof {
        let bi = b as int;
        let u = unit as int;
        lemma_fundamental_div_mod(bi, u);
        lemma_fundamental_div_mod(u, 2);
        let rem = bi % u;
        let num = rem * 100 + u / 2;
        assert(rem * 100 <= (u - 1) * 100) by (nonlinear_arith)
            requires
                0 <= rem <= u - 1,
        ;
        assert(num <= 101 * u - 1);
        lemma_div_pos_is_pos(num, u);
        lemma_div_is_ordered(num, 101 * u - 1, u);
        lemma_fundamental_div_mod_converse(101 * u - 1, u, 100, u - 1);
        // the whole part stays clear of overflow even after a carry
        lemma_div_decreases(bi, u);
    }
    let w: u64 = b / unit;
    let f: u64 = (b % unit * 100 + unit / 2) / unit;
    if f == 100 {
        (w + 1, 0)
    } else {
        (w, f)
    }
}

/// A byte count rendered for people: two decimals of the largest fitting
/// binary unit, or the plain count below one KiB.
pub open spec fn format_bytes_spec(b: int) -> Seq<char> {
    if b >= 0x40000000 {
        let p = scaled_parts_spec(b, 0x40000000);
        dec_digits(p.0 as nat) + "."@ + seq![digit_char(p.1 / 10), digit_char(p.1 % 10)] + "GB"@
    } else if b >= 0x100000 {
        let p = scaled_parts_spec(b, 0x100000);
        dec_digits(p.0 as nat) + "."@ + seq![digit_char(p.1 / 10), digit_char(p.1 % 10)] + "MB"@
    } else if b >= 1024 {
        let p = scaled_parts_spec(b, 1024);
        dec_digits(p.0 as nat) + "."@ + seq![digit_char(p.1 / 10), digit_char(p.1 % 10)] + "KB"@
    } else {
        dec_digits(b as nat) + "B"@
    }
}

fn format_scaled(b: u64, unit: u64, suffix: &str) -> (r: String)
    requires
        1024 <= unit <= 0x40000000,
        b >= unit,
    ensures
        r@ == dec_digits(scaled_parts_spec(b as int, unit as int).0 as nat) + "."@ + seq![
            digit_char(scaled_parts_spec(b as int, unit as int).1 / 10),
            digit_char(scaled_parts_spec(b as int, unit as int).1 % 10),
        ] + suffix@,
{
    let (w, f) = scaled_parts(b, unit);
    let mut s: String = u64_to_dec(w);
    s.append(".");
    let fd: String = two_digits(f);
    s.append(fd.as_str());
    s.append(suffix);
    proof {
        assert(s@ =~= dec_digits(scaled_parts_spec(b as int, unit as int).0 as nat) + "."@ + seq![
            digit_char(scaled_parts_spec(b as int, unit as int).1 / 10),
            digit_char(scaled_parts_spec(b as int, unit as int).1 % 10),
        ] + suffix@);
    }
    s
}

/// Renders a byte count with two decimals of the largest fitting binary
/// unit (GB, MB or KB), or as a plain count below one KiB.
pub fn format_bytes(bytes: u64) -> (r: String)
    ensures
        r@ == format_bytes_spec(bytes as int),
{
    if bytes >= 0x40000000 {
        format_scaled(bytes, 0x40000000, "GB")
    } else if bytes >= 0x100000 {
        format_scaled(bytes, 0x100000, "MB")
    } else if bytes >= 1024 {
        format_scaled(bytes, 1024, "KB")
    } else {
        let mut s: String = u64_to_dec(bytes);
        s.append("B");
        proof {
            assert(s@ =~= format_bytes_spec(bytes as int));
        }
        s
    }
}

// ---------------------------------------------------------------------------
// Sampling plan
// ---------------------------------------------------------------------------

/// The sampling cap: the configured limit, 200 when none is given, and
/// never below one.
pub open spec fn sample_cap_spec(max_files: Option<u32>) -> int {
    let m = match max_files {
        Some(v) => v as int,
        None => 200,
    };
    if m < 1 {
        1
    } else {
        m
    }
}

/// How a project upload run is limited.
#[derive(Clone, Copy, Debug, PartialEq, Eq, Structural)]
pub struct UploadPlan {
    /// How many files the run will read and upload.
    pub planned_files: usize,
    /// Whether the file list was cut at the sampling cap.
    pub truncated: bool,
    /// Whether the run uploads every file.
    pub full_mode: bool,
}

/// Plans a project upload run: full mode takes every file, sample mode
/// at most the cap (200 when unset, at least one); any other mode is a
/// configuration error.
pub fn plan_project_upload(total_files: usize, mode: &str, max_files: Option<u32>) -> (r: Result<
    UploadPlan,
    String,
>)
    ensures
        r is Ok <==> (mode@ == "sample"@ || mode@ == "full"@),
        r matches Err(e) ==> e@
            == "invalid project upload mode: only sample and full are supported"@,
        r matches Ok(p) ==> {
            &&& p.full_mode == (mode@ == "full"@)
            &&& mode@ == "full"@ ==> p.planned_files == total_files && !p.truncated
            &&& mode@ == "sample"@ ==> {
                let cap = sample_cap_spec(max_files);
                &&& p.planned_files == (if total_files as int <= cap {
                    total_files as int
                } else {
                    cap
                })
                &&& p.truncated == (total_files as int > cap)
            }
        },
{
    proof {
        reveal_strlit("full");
        reveal_strlit("sample");
    }
    if str_eq(mode, "full") {
        proof {
            assert("full"@.len() == 4);
            assert("sample"@.len() == 6);
            assert(mode@ != "sample"@);
        }
        Ok(UploadPlan { planned_files: total_files, truncated: false, full_mode: true })
    } else if str_eq(mode, "sample") {
        let configured: u32 = match max_files {
            Some(v) => v,
            None => 200,
        };
        let cap_u32: u32 = if configured < 1 {
            1
        } else {
            configured
        };
        let cap: usize = cap_u32 as usize;
        proof {
            assert(cap_u32 as int == sample_cap_spec(max_files));
            assert(cap as int == sample_cap_spec(max_files));
        }
        let planned: usize = if total_files <= cap {
            total_files
        } else {
            cap
        };
        proof {
            assert(planned as int == (if total_files as int <= sample_cap_spec(max_files) {
                total_files as int
            } else {
                sample_cap_spec(max_files)
            }));
        }
        Ok(UploadPlan { planned_files: planned, truncated: total_files > cap, full_mode: false })
    } else {
        Err("invalid project upload mode: only sample and full are supported".to_owned())
    }
}

// ---------------------------------------------------------------------------
// Blob building from read outcomes
// ---------------------------------------------------------------------------

/// How many files were read successfully.
pub open spec fn read_ok_count(s: Seq<(String, Result<String, String>)>) -> int
    decreases s.len(),
{
    if s.len() == 0 {
        0
    } else {
        read_ok_count(s.drop_last()) + (if s.last().1 is Ok {
            1int
        } else {
            0
        })
    }
}

/// How many files failed to read.
pub open spec fn read_err_count(s: Seq<(String, Result<String, String>)>) -> int
    decreases s.len(),
{
    if s.len() == 0 {
        0
    } else {
        read_err_count(s.drop_last()) + (if s.last().1 is Err {
            1int
        } else {
            0
        })
    }
}

/// The contents of the files that were read, in order.
pub open spec fn ok_contents(s: Seq<(String, Result<String, String>)>) -> Seq<Seq<char>>
    decreases s.len(),
{
    if s.len() == 0 {
        Seq::empty()
    } else {
        ok_contents(s.drop_last()) + (if s.last().1 is Ok {
            seq![s.last().1->Ok_0@]
        } else {
            Seq::<Seq<char>>::empty()
        })
    }
}

/// The first failed read: its path and its error.
pub open spec fn first_read_error(s: Seq<(String, Result<String, String>)>) -> Option<
    (Seq<char>, Seq<char>),
>
    decreases s.len(),
{
    if s.len() == 0 {
        None
    } else {
        match first_read_error(s.drop_last()) {
            Some(pe) => Some(pe),
            None => {
                if s.last().1 is Err {
                    Some((s.last().0@, s.last().1->Err_0@))
                } else {
                    None
                }
            },
        }
    }
}

/// The message recorded for the first failed read.
pub open spec fn read_error_msg_spec(path: Seq<char>, e: Seq<char>) -> Seq<char> {
    "failed to read file "@ + path + ": "@ + e
}

/// What a project pass produced from its files' read outcomes.
#[derive(Debug)]
pub struct ProjectBlobsOutcome {
    /// Every blob of every readable file, in file order.
    pub blobs: Vec<UploadBlob>,
    /// How many files were read and chunked.
    pub tested_files: usize,
    /// How many files failed to read and were skipped.
    pub skipped_files: usize,
    /// The first read error, when any file was skipped.
    pub first_error: Option<String>,
}

/// Chunks every readable file of a project pass into upload blobs.  A
/// file that failed to read is skipped and counted, with the first error
/// recorded; it never aborts the pass.  The blobs carry, in order,
/// exactly the text of the files that were read.
pub fn build_project_blobs(
    outcomes: &Vec<(String, Result<String, String>)>,
    max_lines: usize,
) -> (r: ProjectBlobsOutcome)
    requires
        max_lines >= 1,
    ensures
        r.tested_files == read_ok_count(outcomes@),
        r.skipped_files == read_err_count(outcomes@),
        (match r.first_error {
            Some(e) => (first_read_error(outcomes@) matches Some(pe) && e@ == read_error_msg_spec(
                pe.0,
                pe.1,
            )),
            None => first_read_error(outcomes@) is None,
        }),
        concat_seqs(blob_contents(r.blobs@)) == concat_seqs(ok_contents(outcomes@)),
{
    let n: usize = outcomes.len();
    let mut blobs: Vec<UploadBlob> = Vec::new();
    let mut tested: usize = 0;
    let mut skipped: usize = 0;
    let mut first_error: Option<String> = None;
    let mut i: usize = 0;
    proof {
        assert(outcomes@.subrange(0, 0) =~= Seq::<(String, Result<String, String>)>::empty());
        assert(blob_contents(blobs@) =~= Seq::<Seq<char>>::empty());
        assert(concat_seqs(blob_contents(blobs@)) =~= concat_seqs(
            ok_contents(outcomes@.subrange(0, 0)),
        ));
    }
    while i < n
        invariant
            max_lines >= 1,
            n == outcomes@.len(),
            i <= n,
            tested == read_ok_count(outcomes@.subrange(0, i as int)),
            skipped == read_err_count(outcomes@.subrange(0, i as int)),
            (match first_error {
                Some(e) => (first_read_error(outcomes@.subrange(0, i as int)) matches Some(pe)
                    && e@ == read_error_msg_spec(pe.0, pe.1)),
                None => first_read_error(outcomes@.subrange(0, i as int)) is None,
            }),
            concat_seqs(blob_contents(blobs@)) == concat_seqs(
                ok_contents(outcomes@.subrange(0, i as int)),
            ),
        decreases n - i,
    {
        proof {
            lemma_rounds_prefix(outcomes@, i as int);
            lemma_read_counts(outcomes@.subrange(0, i as int));
        }
        let entry = &outcomes[i];
        match &entry.1 {
            Ok(content) => {
                let mut bs: Vec<UploadBlob> = match split_content_for_speed_test(
                    entry.0.as_str(),
                    content.as_str(),
                    max_lines,
                ) {
                    Ok(bs) => bs,
                    Err(_) => {
                        proof {
                            assert(false);
                        }
                        Vec::new()
                    },
                };
                let ghost old_blobs = blobs@;
                let ghost bs_view = bs@;
                blobs.append(&mut bs);
                tested = tested + 1;
                proof {
                    assert(blob_contents(blobs@) =~= blob_contents(old_blobs) + blob_contents(
                        bs_view,
                    ));
                    lemma_concat_seqs_add(blob_contents(old_blobs), blob_contents(bs_view));
                    lemma_concat_seqs_add(
                        ok_contents(outcomes@.subrange(0, i as int)),
                        seq![content@],
                    );
                    lemma_concat_seqs_singleton(content@);
                    assert(ok_contents(outcomes@.subrange(0, i + 1 as int)) =~= ok_contents(
                        outcomes@.subrange(0, i as int),
                    ) + seq![content@]);
                }
            },
            Err(e) => {
                skipped = skipped + 1;
                if first_error.is_none() {
                    let mut msg: String = "failed to read file ".to_owned();
                    msg.append(entry.0.as_str());
                    msg.append(": ");
                    msg.append(e.as_str());
                    proof {
                        assert(msg@ =~= read_error_msg_spec(entry.0@, e@));
                    }
                    first_error = Some(msg);
                }
                proof {
                    assert(ok_contents(outcomes@.subrange(0, i + 1 as int)) =~= ok_contents(
                        outcomes@.subrange(0, i as int),
                    ));
                }
            },
        }
        i = i + 1;
    }
    proof {
        assert(outcomes@.subrange(0, n as int) =~= outcomes@);
    }
    ProjectBlobsOutcome { blobs, tested_files: tested, skipped_files: skipped, first_error }
}

/// Extending a prefix of read outcomes by one element drops down to the
/// prefix.
proof fn lemma_rounds_prefix(s: Seq<(String, Result<String, String>)>, i: int)
    requires
        0 <= i < s.len(),
    ensures
        s.subrange(0, i + 1).drop_last() == s.subrange(0, i),
        s.subrange(0, i + 1).last() == s[i],
{
    assert(s.subrange(0, i + 1).drop_last() =~= s.subrange(0, i));
}

/// The read counts never exceed the number of files.
proof fn lemma_read_counts(s: Seq<(String, Result<String, String>)>)
    ensures
        0 <= read_ok_count(s) <= s.len(),
        0 <= read_err_count(s) <= s.len(),
    decreases s.len(),
{
    if s.len() > 0 {
        lemma_read_counts(s.drop_last());
    }
}

// ---------------------------------------------------------------------------
// Metric display names
// ---------------------------------------------------------------------------

/// The display name of the single-file upload metric.
pub open spec fn single_upload_name_spec(file_bytes: int, blob_count: nat) -> Seq<char> {
    "single-file upload ("@ + format_bytes_spec(file_bytes) + ", "@ + dec_digits(blob_count)
        + " blobs)"@
}

/// Builds the display name of the single-file upload metric.
pub fn single_upload_name(file_bytes: u64, blob_count: usize) -> (r: String)
    ensures
        r@ == single_upload_name_spec(file_bytes as int, blob_count as nat),
{
    let mut s: String = "single-file upload (".to_owned();
    let fb: String = format_bytes(file_bytes);
    s.append(fb.as_str());
    s.append(", ");
    let bc: String = usize_to_dec(blob_count);
    s.append(bc.as_str());
    s.append(" blobs)");
    proof {
        assert(s@ =~= single_upload_name_spec(file_bytes as int, blob_count as nat));
    }
    s
}

/// The display name of the project upload metric.
pub open spec fn project_upload_name_spec(
    full_mode: bool,
    planned: nat,
    total: nat,
    bytes: int,
    blob_count: nat,
) -> Seq<char> {
    "project upload ("@ + (if full_mode {
        "full "@ + dec_digits(planned) + " files"@
    } else {
        "sampled "@ + dec_digits(planned) + "/"@ + dec_digits(total) + " files"@
    }) + ", "@ + format_bytes_spec(bytes) + ", "@ + dec_digits(blob_count) + " blobs)"@
}

/// Builds the display name of the project upload metric.
pub fn project_upload_name(
    full_mode: bool,
    planned: usize,
    total: usize,
    bytes: u64,
    blob_count: usize,
) -> (r: String)
    ensures
        r@ == project_upload_name_spec(
            full_mode,
            planned as nat,
            total as nat,
            bytes as int,
            blob_count as nat,
        ),
{
    let mut s: String = "project upload (".to_owned();
    if full_mode {
        s.append("full ");
        let p: String = usize_to_dec(planned);
        s.append(p.as_str());
        s.append(" files");
    } else {
        s.append("sampled ");
        let p: String = usize_to_dec(planned);
        s.append(p.as_str());
        s.append("/");
        let t: String = usize_to_dec(total);
        s.append(t.as_str());
        s.append(" files");
    }
    s.append(", ");
    let fb: String = format_bytes(bytes);
    s.append(fb.as_str());
    s.append(", ");
    let bc: String = usize_to_dec(blob_count);
    s.append(bc.as_str());
    s.append(" blobs)");
    proof {
        assert(s@ =~= project_upload_name_spec(
            full_mode,
            planned as nat,
            total as nat,
            bytes as int,
            blob_count as nat,
        ));
    }
    s
}

} // verus!
