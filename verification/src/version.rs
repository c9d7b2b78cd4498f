//! Release-version handling: tag cleanup, numeric version comparison,
//! and choosing the right release asset for a platform.
//!
//! Fetching release data is the surrounding application's concern; what
//! a version tag means and which asset matches the platform is decided
//! here.

use vstd::prelude::*;
use vstd::string::StrSliceExecFns;
use vstd::string::StringExecFns;

use crate::strutil::contains_sub;
use crate::strutil::occurs_at;
use crate::strutil::split_char_spec;
use crate::strutil::split_on_char;

verus! {

/// The network environment as shown beside an update check.
#[derive(Debug, PartialEq)]
pub struct NetworkStatus {
    /// The country code of the current address.
    pub country: String,
    /// The city, when known.
    pub city: Option<String>,
    /// The current address, when known.
    pub ip: Option<String>,
    /// Whether requests went through a proxy.
    pub using_proxy: bool,
    /// The proxy host, when one is used.
    pub proxy_host: Option<String>,
    /// The proxy port, when one is used.
    pub proxy_port: Option<u16>,
    /// The proxy protocol, when one is used.
    pub proxy_type: Option<String>,
    /// Whether the release host answered.
    pub github_reachable: bool,
}

impl Default for NetworkStatus {
    /// An unknown network: no location, no proxy, release host not
    /// reached.
    fn default() -> (r: Self)
        ensures
            r.country@ == "UNKNOWN"@,
            r.city is None,
            r.ip is None,
            !r.using_proxy,
            r.proxy_host is None,
            r.proxy_port is None,
            r.proxy_type is None,
            !r.github_reachable,
    {
        NetworkStatus {
            country: "UNKNOWN".to_owned(),
            city: None,
            ip: None,
            using_proxy: false,
            proxy_host: None,
            proxy_port: None,
            proxy_type: None,
            github_reachable: false,
        }
    }
}

/// What an update check found.
#[derive(Debug, PartialEq)]
pub struct UpdateInfo {
    /// Whether a newer release exists.
    pub available: bool,
    /// The running version.
    pub current_version: String,
    /// The newest released version.
    pub latest_version: String,
    /// The release notes.
    pub release_notes: String,
    /// Where to download the release.
    pub download_url: String,
    /// The network environment of the check.
    pub network_status: NetworkStatus,
}

/// Whether a character survives version-tag cleanup.
pub open spec fn is_version_char(c: char) -> bool {
    ('0' <= c && c <= '9') || c == '.'
}

/// A version tag reduced to digits and dots.
pub open spec fn version_chars_spec(s: Seq<char>) -> Seq<char>
    decreases s.len(),
{
    if s.len() == 0 {
        Seq::empty()
    } else {
        version_chars_spec(s.drop_last()) + (if is_version_char(s.last()) {
            seq![s.last()]
        } else {
            Seq::<char>::empty()
        })
    }
}

/// Reduces a release tag to a bare version: only digits and dots are
/// kept, so prefixes and annotations around the number fall away.
pub fn parse_version_tag(tag: &str) -> (r: String)
    ensures
        r@ == version_chars_spec(tag@),
{
    let n: usize = tag.unicode_len();
    let mut out: String = String::new();
    let mut i: usize = 0;
    proof {
        assert(tag@.subrange(0, 0) =~= Seq::<char>::empty());
        assert(out@ =~= version_chars_spec(tag@.subrange(0, 0)));
    }
    while i < n
        invariant
            n == tag@.len(),
            i <= n,
            out@ == version_chars_spec(tag@.subrange(0, i as int)),
        decreases n - i,
    {
        let c: char = tag.get_char(i);
        proof {
            assert(tag@.subrange(0, i + 1 as int).drop_last() =~= tag@.subrange(0, i as int));
            assert(tag@.subrange(0, i + 1 as int).last() == tag@[i as int]);
        }
        if ('0' <= c && c <= '9') || c == '.' {
            let piece: &str = tag.substring_char(i, i + 1);
            out.append(piece);
            proof {
                assert(out@ =~= version_chars_spec(tag@.subrange(0, i + 1 as int)));
            }
        } else {
            proof {
                assert(out@ =~= version_chars_spec(tag@.subrange(0, i + 1 as int)));
            }
        }
        i = i + 1;
    }
    proof {
        assert(tag@.subrange(0, n as int) =~= tag@);
    }
    out
}

/// The numeric value of a digit string.
pub open spec fn digits_val(s: Seq<char>) -> int
    decreases s.len(),
{
    if s.len() == 0 {
        0
    } else {
        digits_val(s.drop_last()) * 10 + (s.last() as int - '0' as int)
    }
}

/// Whether every character is a decimal digit.
pub open spec fn all_digits(s: Seq<char>) -> bool {
    forall|i: int| 0 <= i < s.len() ==> '0' <= (#[trigger] s[i]) <= '9'
}

/// What a version component parses to: its numeric value when it is a
/// nonempty digit string that fits, nothing otherwise.
pub open spec fn parse_u32_spec(s: Seq<char>) -> Option<u32> {
    if s.len() > 0 && all_digits(s) && digits_val(s) <= u32::MAX {
        Some(digits_val(s) as u32)
    } else {
        None
    }
}

/// A digit string's value never shrinks as digits are appended.
proof fn lemma_digits_val_nonneg(s: Seq<char>)
    requires
        all_digits(s),
    ensures
        digits_val(s) >= 0,
    decreases s.len(),
{
    if s.len() > 0 {
        assert(all_digits(s.drop_last())) by {
            assert(forall|i: int| 0 <= i < s.len() - 1 ==> s.drop_last()[i] == (#[trigger] s[i]));
        }
        lemma_digits_val_nonneg(s.drop_last());
    }
}

/// Parses one version component: a nonempty string of digits whose
/// value fits in 32 bits; anything else parses to nothing.
pub fn parse_u32_component(s: &str) -> (r: Option<u32>)
    ensures
        r == parse_u32_spec(s@),
{
    let n: usize = s.unicode_len();
    if n == 0 {
        return None;
    }
    let mut acc: u64 = 0;
    let mut overflowed: bool = false;
    let mut i: usize = 0;
    proof {
        assert(s@.subrange(0, 0) =~= Seq::<char>::empty());
    }
    while i < n
        invariant
            n == s@.len(),
            i <= n,
            all_digits(s@.subrange(0, i as int)),
            overflowed <==> digits_val(s@.subrange(0, i as int)) > u32::MAX,
            !overflowed ==> acc == digits_val(s@.subrange(0, i as int)),
            acc <= u32::MAX,
        decreases n - i,
    {
        let c: char = s.get_char(i);
        if !('0' <= c && c <= '9') {
            return None;
        }
        proof {
            assert(s@.subrange(0, i + 1 as int).drop_last() =~= s@.subrange(0, i as int));
            assert(s@.subrange(0, i + 1 as int).last() == s@[i as int]);
            assert(forall|j: int|
                0 <= j < i ==> s@.subrange(0, i + 1 as int)[j] == (#[trigger] s@.subrange(
                    0,
                    i as int,
                )[j]));
            lemma_digits_val_nonneg(s@.subrange(0, i as int));
        }
        let d: u64 = (c as u32 as u64) - 48;
        if overflowed {
            proof {
                let prev = digits_val(s@.subrange(0, i as int));
                assert(prev * 10 >= prev) by (nonlinear_arith)
                    requires
                        prev >= 0,
                ;
            }
        } else {
            let next: u64 = acc * 10 + d;
            if next > 0xFFFFFFFF {
                overflowed = true;
            } else {
                acc = next;
            }
        }
        i = i + 1;
    }
    proof {
        assert(s@.subrange(0, n as int) =~= s@);
    }
    if overflowed {
        None
    } else {
        Some(acc as u32)
    }
}

/// The numeric components of a cleaned version string: each dot-severed
/// piece that parses, in order, unparsable pieces skipped.
pub open spec fn version_nums_spec(ps: Seq<Seq<char>>) -> Seq<u32>
    decreases ps.len(),
{
    if ps.len() == 0 {
        Seq::empty()
    } else {
        version_nums_spec(ps.drop_last()) + (match parse_u32_spec(ps.last()) {
            Some(v) => seq![v],
            None => Seq::<u32>::empty(),
        })
    }
}

/// Whether version `a` is strictly newer than version `b`, comparing
/// components left to right with missing components reading as zero.
pub open spec fn version_gt(a: Seq<u32>, b: Seq<u32>) -> bool
    decreases a.len() + b.len(),
{
    if a.len() == 0 && b.len() == 0 {
        false
    } else {
        let x: u32 = if a.len() > 0 {
            a[0]
        } else {
            0
        };
        let y: u32 = if b.len() > 0 {
            b[0]
        } else {
            0
        };
        if x > y {
            true
        } else if x < y {
            false
        } else {
            version_gt(
                if a.len() > 0 {
                    a.drop_first()
                } else {
                    a
                },
                if b.len() > 0 {
                    b.drop_first()
                } else {
                    b
                },
            )
        }
    }
}

fn version_numbers(v: &str) -> (r: Vec<u32>)
    ensures
        r@ == version_nums_spec(split_char_spec(v@, '.')),
{
    let parts: Vec<String> = split_on_char(v, '.');
    let ghost pv = parts.deep_view();
    let mut nums: Vec<u32> = Vec::new();
    let mut i: usize = 0;
    proof {
        assert(pv.subrange(0, 0) =~= Seq::<Seq<char>>::empty());
        assert(nums@ =~= version_nums_spec(pv.subrange(0, 0)));
    }
    while i < parts.len()
        invariant
            parts.deep_view() == pv,
            parts@.len() == pv.len(),
            i <= pv.len(),
            nums@ == version_nums_spec(pv.subrange(0, i as int)),
        decreases pv.len() - i,
    {
        proof {
            assert(parts@[i as int]@ == pv[i as int]);
            assert(pv.subrange(0, i + 1 as int).drop_last() =~= pv.subrange(0, i as int));
            assert(pv.subrange(0, i + 1 as int).last() == pv[i as int]);
        }
        match parse_u32_component(parts[i].as_str()) {
            Some(x) => {
                nums.push(x);
                proof {
                    assert(nums@ =~= version_nums_spec(pv.subrange(0, i + 1 as int)));
                }
            },
            None => {
                proof {
                    assert(nums@ =~= version_nums_spec(pv.subrange(0, i + 1 as int)));
                }
            },
        }
        i = i + 1;
    }
    proof {
        assert(pv.subrange(0, pv.len() as int) =~= pv);
    }
    nums
}

/// Whether version `v1` is strictly newer than version `v2`: the
/// dot-severed numeric components are compared left to right, missing
/// components read as zero, and unparsable components are skipped.
pub fn compare_versions(v1: &str, v2: &str) -> (r: bool)
    ensures
        r == version_gt(
            version_nums_spec(split_char_spec(v1@, '.')),
            version_nums_spec(split_char_spec(v2@, '.')),
        ),
{
    let a: Vec<u32> = version_numbers(v1);
    let b: Vec<u32> = version_numbers(v2);
    let ghost av = a@;
    let ghost bv = b@;
    let mut i: usize = 0;
    let max_len: usize = if a.len() > b.len() {
        a.len()
    } else {
        b.len()
    };
    let ghost mut ra = av;
    let ghost mut rb = bv;
    proof {
        assert(av.skip(0) =~= av);
        assert(bv.skip(0) =~= bv);
    }
    while i < max_len
        invariant
            a@ == av,
            b@ == bv,
            av == version_nums_spec(split_char_spec(v1@, '.')),
            bv == version_nums_spec(split_char_spec(v2@, '.')),
            max_len == (if av.len() > bv.len() {
                av.len()
            } else {
                bv.len()
            }),
            i <= max_len,
            ra == (if i as int <= av.len() {
                av.skip(i as int)
            } else {
                Seq::<u32>::empty()
            }),
            rb == (if i as int <= bv.len() {
                bv.skip(i as int)
            } else {
                Seq::<u32>::empty()
            }),
            version_gt(av, bv) == version_gt(ra, rb),
        decreases max_len - i,
    {
        let x: u32 = if i < a.len() {
            a[i]
        } else {
            0
        };
        let y: u32 = if i < b.len() {
            b[i]
        } else {
            0
        };
        proof {
            if (i as int) < av.len() {
                assert(ra[0] == av[i as int]);
            }
            if (i as int) < bv.len() {
                assert(rb[0] == bv[i as int]);
            }
        }
        if x > y {
            proof {
                assert(ra.len() > 0 || rb.len() > 0);
                assert(version_gt(ra, rb));
            }
            return true;
        }
        if x < y {
            proof {
                assert(ra.len() > 0 || rb.len() > 0);
                assert(!version_gt(ra, rb));
            }
            return false;
        }
        proof {
            if ra.len() > 0 {
                assert(ra.drop_first() =~= (if i + 1 <= av.len() {
                    av.skip(i + 1)
                } else {
                    Seq::<u32>::empty()
                }));
                ra = ra.drop_first();
            } else {
                assert(ra =~= (if i + 1 <= av.len() {
                    av.skip(i + 1)
                } else {
                    Seq::<u32>::empty()
                }));
            }
            if rb.len() > 0 {
                assert(rb.drop_first() =~= (if i + 1 <= bv.len() {
                    bv.skip(i + 1)
                } else {
                    Seq::<u32>::empty()
                }));
                rb = rb.drop_first();
            } else {
                assert(rb =~= (if i + 1 <= bv.len() {
                    bv.skip(i + 1)
                } else {
                    Seq::<u32>::empty()
                }));
            }
        }
        i = i + 1;
    }
    proof {
        assert(ra =~= Seq::<u32>::empty());
        assert(rb =~= Seq::<u32>::empty());
    }
    false
}

/// Whether an asset name names the platform.
pub open spec fn asset_matches(name: Seq<char>, platform: Seq<char>) -> bool {
    exists|i: int| occurs_at(name, platform, i)
}

/// The download URL of the first asset whose name names the platform.
pub open spec fn first_asset_url(assets: Seq<(String, String)>, platform: Seq<char>) -> Option<
    Seq<char>,
>
    decreases assets.len(),
{
    if assets.len() == 0 {
        None
    } else {
        match first_asset_url(assets.drop_last(), platform) {
            Some(u) => Some(u),
            None => {
                if asset_matches(assets.last().0@, platform) {
                    Some(assets.last().1@)
                } else {
                    None
                }
            },
        }
    }
}

/// Chooses the download URL for a platform from a release's assets: the
/// first asset whose name mentions the platform wins; when none does,
/// the fallback (the release page) is used.
pub fn select_platform_asset(assets: &Vec<(String, String)>, platform: &str, fallback: &str) -> (r:
    String)
    ensures
        r@ == (match first_asset_url(assets@, platform@) {
            Some(u) => u,
            None => fallback@,
        }),
{
    let n: usize = assets.len();
    let mut found: Option<String> = None;
    let mut i: usize = 0;
    proof {
        assert(assets@.subrange(0, 0) =~= Seq::<(String, String)>::empty());
    }
    while i < n
        invariant
            n == assets@.len(),
            i <= n,
            (match found {
                Some(u) => first_asset_url(assets@.subrange(0, i as int), platform@) == Some(u@),
                None => first_asset_url(assets@.subrange(0, i as int), platform@) is None,
            }),
        decreases n - i,
    {
        proof {
            assert(assets@.subrange(0, i + 1 as int).drop_last() =~= assets@.subrange(
                0,
                i as int,
            ));
            assert(assets@.subrange(0, i + 1 as int).last() == assets@[i as int]);
        }
        if found.is_none() {
            if contains_sub(assets[i].0.as_str(), platform) {
                found = Some(assets[i].1.clone());
            }
        }
        i = i + 1;
    }
    proof {
        assert(assets@.subrange(0, n as int) =~= assets@);
    }
    match found {
        Some(u) => u,
        None => fallback.to_owned(),
    }
}

} // verus!
