//! Selecting the file names to rename and putting them in order.

use vstd::prelude::*;
use regex::Regex;

verus! {

#[verifier::external_type_specification]
#[verifier::external_body]
pub struct ExRegex(Regex);

#[verifier::external_type_specification]
#[verifier::external_body]
pub struct ExRegexError(regex::Error);

/// Whether `pattern` compiles as a regular expression under the regex
/// crate's default settings.
pub uninterp spec fn regex_valid(pattern: Seq<char>) -> bool;

/// Whether the regular expression `pattern` matches somewhere in `haystack`.
pub uninterp spec fn regex_finds(pattern: Seq<char>, haystack: Seq<char>) -> bool;

/// Relies on regex's `Regex::new`: it succeeds exactly on the patterns that
/// compile, which depends on the pattern alone.
#[verifier::external_body]
fn compile_regex(pattern: &str) -> (r: Result<Regex, regex::Error>)
    ensures
        r is Ok <==> regex_valid(pattern@),
{
    Regex::new(pattern)
}

/// A regular expression for file names, kept with the text it was compiled
/// from.
pub struct FilenameFilter {
    source: String,
    regex: Regex,
}

impl FilenameFilter {
    /// The text of the regular expression.
    pub closed spec fn pattern(&self) -> Seq<char> {
        self.source@
    }

    /// Compiles `pattern`; a pattern that is not a valid regular expression
    /// gives `RenameError::Regex`.
    pub fn new(pattern: &String) -> (r: Result<FilenameFilter, crate::error::RenameError>)
        ensures
            r is Ok <==> regex_valid(pattern@),
            r matches Ok(f) ==> f.pattern() == pattern@,
            r is Err ==> r->Err_0 is Regex,
    {
        match compile_regex(pattern.as_str()) {
            Ok(regex) => Ok(FilenameFilter { source: pattern.clone(), regex }),
            Err(e) => Err(crate::error::RenameError::Regex(e)),
        }
    }
}

/// Relies on regex's `Regex::is_match`: whether the expression matches
/// anywhere in the name. The filter's expression is always the one compiled
/// from its `source`, as `FilenameFilter::new` is the only place that builds
/// a filter.
#[verifier::external_body]
fn filter_finds(filter: &FilenameFilter, name: &str) -> (b: bool)
    ensures
        b == regex_finds(filter.pattern(), name@),
{
    filter.regex.is_match(name)
}

/// Lexicographic order of texts by character code, a proper prefix first;
/// the order of Rust's `str`, since UTF-8 keeps the order of code points.
pub open spec fn text_le(a: Seq<char>, b: Seq<char>) -> bool
    decreases a.len(),
{
    if a.len() == 0 {
        true
    } else if b.len() == 0 {
        false
    } else if a[0] != b[0] {
        (a[0] as int) < (b[0] as int)
    } else {
        text_le(a.drop_first(), b.drop_first())
    }
}

/// Whether the names are in ascending order.
pub open spec fn sorted(s: Seq<String>) -> bool {
    forall|i: int, j: int| 0 <= i < j < s.len() ==> text_le(#[trigger] s[i]@, #[trigger] s[j]@)
}

/// The names that `pattern` matches, in their first order.
pub open spec fn matching(pattern: Seq<char>, names: Seq<String>) -> Seq<String>
    decreases names.len(),
{
    if names.len() == 0 {
        Seq::empty()
    } else {
        let front = matching(pattern, names.drop_last());
        if regex_finds(pattern, names.last()@) {
            front.push(names.last())
        } else {
            front
        }
    }
}

/// Every name that `pattern` matches is one of the names, and is matched.
proof fn lemma_matching_members(pattern: Seq<char>, names: Seq<String>)
    ensures
        forall|x: String| #[trigger]
            matching(pattern, names).contains(x) ==> names.contains(x) && regex_finds(
                pattern,
                x@,
            ),
    decreases names.len(),
{
    if names.len() > 0 {
        let front = names.drop_last();
        lemma_matching_members(pattern, front);
        assert forall|x: String| #[trigger]
            matching(pattern, names).contains(x) implies names.contains(x) && regex_finds(
                pattern,
                x@,
            ) by {
            if matching(pattern, front).contains(x) {
                let k = choose|k: int| 0 <= k < front.len() && front[k] == x;
                assert(names[k] == x);
            } else {
                assert(names[names.len() - 1] == x);
            }
        }
    }
}

/// Texts that agree on their first `k` characters compare as what follows.
proof fn lemma_text_le_skip(a: Seq<char>, b: Seq<char>, k: int)
    requires
        0 <= k <= a.len(),
        k <= b.len(),
        forall|j: int| 0 <= j < k ==> a[j] == b[j],
    ensures
        text_le(a, b) == text_le(a.skip(k), b.skip(k)),
    decreases k,
{
    if k > 0 {
        lemma_text_le_skip(a.drop_first(), b.drop_first(), k - 1);
        assert(a.drop_first().skip(k - 1) == a.skip(k));
        assert(b.drop_first().skip(k - 1) == b.skip(k));
    } else {
        assert(a.skip(0) == a);
        assert(b.skip(0) == b);
    }
}

/// The order is total.
pub proof fn lemma_text_le_total(a: Seq<char>, b: Seq<char>)
    ensures
        text_le(a, b) || text_le(b, a),
    decreases a.len(),
{
    if a.len() > 0 && b.len() > 0 && a[0] == b[0] {
        lemma_text_le_total(a.drop_first(), b.drop_first());
    } else if a.len() > 0 && b.len() > 0 {
        assert(a[0] as int != b[0] as int);
    }
}

/// The order is transitive.
pub proof fn lemma_text_le_trans(a: Seq<char>, b: Seq<char>, c: Seq<char>)
    requires
        text_le(a, b),
        text_le(b, c),
    ensures
        text_le(a, c),
    decreases a.len(),
{
    if a.len() > 0 && b.len() > 0 && c.len() > 0 && a[0] == b[0] && b[0] == c[0] {
        lemma_text_le_trans(a.drop_first(), b.drop_first(), c.drop_first());
    }
}

/// Compares two texts in the order of `str`.
pub fn text_less_or_equal(a: &str, b: &str) -> (r: bool)
    ensures
        r == text_le(a@, b@),
{
    let la = a.unicode_len();
    let lb = b.unicode_len();
    let mut k: usize = 0;
    while k < la && k < lb
        invariant
            la == a@.len(),
            lb == b@.len(),
            k <= la,
            k <= lb,
            forall|j: int| 0 <= j < k ==> a@[j] == b@[j],
        decreases la - k,
    {
        let ca = a.get_char(k);
        let cb = b.get_char(k);
        if ca != cb {
            proof {
                lemma_text_le_skip(a@, b@, k as int);
                assert(a@.skip(k as int)[0] == ca);
                assert(b@.skip(k as int)[0] == cb);
            }
            return (ca as u32) < (cb as u32);
        }
        k = k + 1;
    }
    proof {
        lemma_text_le_skip(a@, b@, k as int);
    }
    k == la
}

/// Inserts `name` into the ordered `out`, after every name that does not
/// come after it.
fn insert_sorted(out: &mut Vec<String>, name: String)
    requires
        sorted(old(out)@),
    ensures
        sorted(final(out)@),
        final(out)@.to_multiset() == old(out)@.to_multiset().insert(name),
{
    let mut p: usize = 0;
    while p < out.len() && text_less_or_equal(out[p].as_str(), name.as_str())
        invariant
            p <= out.len(),
            forall|q: int| 0 <= q < p ==> text_le(#[trigger] out@[q]@, name@),
        decreases out.len() - p,
    {
        p = p + 1;
    }
    let ghost s = out@;
    proof {
        if p < s.len() {
            lemma_text_le_total(s[p as int]@, name@);
        }
    }
    out.insert(p, name);
    proof {
        broadcast use vstd::seq_lib::to_multiset_insert;

        let t = out@;
        assert forall|i: int, j: int| 0 <= i < j < t.len() implies text_le(
            #[trigger] t[i]@,
            #[trigger] t[j]@,
        ) by {
            if j < p {
                assert(t[i] == s[i] && t[j] == s[j]);
            } else if j == p {
                assert(t[i] == s[i]);
            } else if i < p {
                assert(t[i] == s[i] && t[j] == s[j - 1]);
                lemma_text_le_trans(s[i]@, name@, s[p as int]@);
                if j - 1 > p {
                    lemma_text_le_trans(s[i]@, s[p as int]@, s[j - 1]@);
                }
            } else if i == p {
                assert(t[j] == s[j - 1]);
                if j - 1 > p {
                    lemma_text_le_trans(name@, s[p as int]@, s[j - 1]@);
                }
            } else {
                assert(t[i] == s[i - 1] && t[j] == s[j - 1]);
            }
        }
    }
}

/// The names that `filter` matches, in ascending order: each name is kept
/// as many times as it is given.
pub fn filter_filename(names: Vec<String>, filter: &FilenameFilter) -> (r: Vec<String>)
    ensures
        sorted(r@),
        r@.to_multiset() == matching(filter.pattern(), names@).to_multiset(),
        forall|i: int|
            0 <= i < r.len() ==> names@.contains(#[trigger] r@[i]) && regex_finds(
                filter.pattern(),
                r@[i]@,
            ),
{
    let mut out: Vec<String> = Vec::new();
    let mut i: usize = 0;
    while i < names.len()
        invariant
            i <= names.len(),
            sorted(out@),
            out@.to_multiset() == matching(filter.pattern(), names@.take(i as int)).to_multiset(),
        decreases names.len() - i,
    {
        proof {
            assert(names@.take(i + 1).drop_last() == names@.take(i as int));
        }
        let name = names[i].clone();
        if filter_finds(filter, name.as_str()) {
            proof {
                broadcast use vstd::seq_lib::to_multiset_build;

            }
            insert_sorted(&mut out, name);
        }
        i = i + 1;
    }
    assert(names@.take(names.len() as int) == names@);
    proof {
        broadcast use vstd::seq_lib::to_multiset_contains;

        lemma_matching_members(filter.pattern(), names@);
        assert forall|i: int| 0 <= i < out.len() implies names@.contains(#[trigger] out@[i])
            && regex_finds(filter.pattern(), out@[i]@) by {
            assert(out@.contains(out@[i]));
            assert(out@.to_multiset().contains(out@[i]));
            assert(matching(filter.pattern(), names@).to_multiset().contains(out@[i]));
        }
    }
    out
}

} // verus!
