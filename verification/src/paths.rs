//! Project-root path normalization.
//!
//! A project's identity is its normalized absolute path: backslashes are
//! turned into forward slashes and leading drive-extended-path prefixes
//! (`\\?\` or `//?/`) are stripped.  Two paths that normalize identically
//! name the same project.

use vstd::prelude::*;
use vstd::string::StrSliceExecFns;
use vstd::string::StringExecFns;

verus! {

/// One path character with separator style unified.
pub open spec fn unify_sep(c: char) -> char {
    if c == '\\' {
        '/'
    } else {
        c
    }
}

/// A path with every backslash turned into a forward slash.
pub open spec fn norm_seps(s: Seq<char>) -> Seq<char> {
    s.map_values(|c: char| unify_sep(c))
}

/// Whether a (separator-unified) path starts with the extended-path prefix.
pub open spec fn has_ext_prefix(s: Seq<char>) -> bool {
    s.len() >= 4 && s[0] == '/' && s[1] == '/' && s[2] == '?' && s[3] == '/'
}

/// A path with every leading extended-path prefix removed.
pub open spec fn strip_ext_prefixes(s: Seq<char>) -> Seq<char>
    decreases s.len(),
{
    if has_ext_prefix(s) {
        strip_ext_prefixes(s.skip(4))
    } else {
        s
    }
}

/// The normalized form of a project-root path.
pub open spec fn normalize_spec(s: Seq<char>) -> Seq<char> {
    strip_ext_prefixes(norm_seps(s))
}

/// Normalizes a project-root path: backslashes become forward slashes and
/// leading extended-path prefixes are removed.
pub fn normalize_path_key(path: &str) -> (r: String)
    ensures
        r@ == normalize_spec(path@),
{
    let n: usize = path.unicode_len();
    let mut out: String = String::new();
    let mut i: usize = 0;
    while i < n
        invariant
            n == path@.len(),
            i <= n,
            out@ == norm_seps(path@.subrange(0, i as int)),
        decreases n - i,
    {
        let c: char = path.get_char(i);
        if c == '\\' {
            out.append("/");
            proof {
                reveal_strlit("/");
            }
        } else {
            let piece: &str = path.substring_char(i, i + 1);
            out.append(piece);
        }
        proof {
            assert(norm_seps(path@.subrange(0, i + 1 as int)) =~= norm_seps(
                path@.subrange(0, i as int),
            ).push(unify_sep(path@[i as int])));
            assert("/"@ =~= seq!['/'] || path@[i as int] != '\\');
            assert(out@ =~= norm_seps(path@.subrange(0, i + 1 as int)));
        }
        i = i + 1;
    }
    proof {
        assert(path@.subrange(0, n as int) =~= path@);
    }
    let mut cur: String = out;
    loop
        invariant
            strip_ext_prefixes(cur@) == strip_ext_prefixes(norm_seps(path@)),
        decreases cur@.len(),
    {
        let len: usize = cur.as_str().unicode_len();
        let is_prefix: bool = if len >= 4 {
            let c0: char = cur.as_str().get_char(0);
            let c1: char = cur.as_str().get_char(1);
            let c2: char = cur.as_str().get_char(2);
            let c3: char = cur.as_str().get_char(3);
            c0 == '/' && c1 == '/' && c2 == '?' && c3 == '/'
        } else {
            false
        };
        if !is_prefix {
            assert(strip_ext_prefixes(cur@) == cur@);
            return cur;
        }
        let next: String = cur.as_str().substring_char(4, len).to_owned();
        proof {
            assert(next@ =~= cur@.skip(4));
        }
        cur = next;
    }
}

/// Separator-unifying twice changes nothing more than once.
proof fn lemma_norm_seps_stable(s: Seq<char>)
    ensures
        norm_seps(norm_seps(s)) == norm_seps(s),
{
    assert(norm_seps(norm_seps(s)) =~= norm_seps(s));
}

/// Stripping leading extended-path prefixes is itself idempotent.
proof fn lemma_strip_stable(s: Seq<char>)
    ensures
        strip_ext_prefixes(strip_ext_prefixes(s)) == strip_ext_prefixes(s),
    decreases s.len(),
{
    if has_ext_prefix(s) {
        lemma_strip_stable(s.skip(4));
    }
}

/// Stripping prefixes keeps the remaining characters as they were: the
/// result is a suffix of the input.
proof fn lemma_strip_is_suffix(s: Seq<char>)
    ensures
        exists|k: int| 0 <= k <= s.len() && strip_ext_prefixes(s) == s.skip(k),
    decreases s.len(),
{
    if has_ext_prefix(s) {
        lemma_strip_is_suffix(s.skip(4));
        let k0 = choose|k: int|
            0 <= k <= s.skip(4).len() && strip_ext_prefixes(s.skip(4)) == s.skip(4).skip(k);
        assert(s.skip(4).skip(k0) =~= s.skip(k0 + 4));
        assert(strip_ext_prefixes(s) == s.skip(k0 + 4));
    } else {
        assert(strip_ext_prefixes(s) == s.skip(0));
    }
}

/// Normalizing is idempotent: normalizing an already-normalized path gives
/// the same key back.
pub proof fn lemma_normalize_idempotent(s: Seq<char>)
    ensures
        normalize_spec(normalize_spec(s)) == normalize_spec(s),
{
    let u = norm_seps(s);
    let t = strip_ext_prefixes(u);
    lemma_strip_is_suffix(u);
    let k = choose|k: int| 0 <= k <= u.len() && strip_ext_prefixes(u) == u.skip(k);
    assert forall|i: int| 0 <= i < t.len() implies t[i] != '\\' by {
        assert(t[i] == u[k + i]);
        assert(u[k + i] == unify_sep(s[k + i]));
    }
    assert(norm_seps(t) =~= t);
    lemma_strip_stable(u);
}

/// Separator style does not matter: a path and its separator-unified form
/// normalize to the same key.
pub proof fn lemma_normalize_sep_invariant(s: Seq<char>)
    ensures
        normalize_spec(norm_seps(s)) == normalize_spec(s),
{
    lemma_norm_seps_stable(s);
}

/// A leading drive-extended-path prefix, in either separator style, does
/// not matter: prefixing a path with one leaves the normalized key as it
/// was.
pub proof fn lemma_normalize_ext_prefix_invariant(p: Seq<char>, s: Seq<char>)
    requires
        p =~= seq!['\\', '\\', '?', '\\'] || p =~= seq!['/', '/', '?', '/'],
    ensures
        normalize_spec(p + s) == normalize_spec(s),
{
    assert(norm_seps(p + s) =~= norm_seps(p) + norm_seps(s));
    assert(norm_seps(p) =~= seq!['/', '/', '?', '/']);
    let u = norm_seps(p) + norm_seps(s);
    assert(has_ext_prefix(u));
    assert(u.skip(4) =~= norm_seps(s));
}

} // verus!
