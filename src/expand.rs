//! Output patterns: every placeholder character is replaced by a value.

use vstd::prelude::*;

verus! {

/// The character that stands for the value in an output pattern.
pub const PLACEHOLDER: char = '?';

/// The pattern `template` with every placeholder replaced by `value`.
pub open spec fn expand(template: Seq<char>, value: Seq<char>) -> Seq<char>
    decreases template.len(),
{
    if template.len() == 0 {
        Seq::empty()
    } else {
        let front = expand(template.drop_last(), value);
        if template.last() == PLACEHOLDER {
            front + value
        } else {
            front.push(template.last())
        }
    }
}

/// Whether `s` holds no placeholder.
pub open spec fn placeholder_free(s: Seq<char>) -> bool {
    forall|i: int| 0 <= i < s.len() ==> s[i] != PLACEHOLDER
}

/// Expands `pattern` with `value`: each placeholder becomes `value`, every
/// other character is kept.
pub fn expand_pattern(pattern: &str, value: &str) -> (r: String)
    ensures
        r@ == expand(pattern@, value@),
{
    let n = pattern.unicode_len();
    let mut res = String::new();
    let mut start: usize = 0;
    let mut i: usize = 0;
    while i < n
        invariant
            n == pattern@.len(),
            start <= i <= n,
            res@ + pattern@.subrange(start as int, i as int) == expand(pattern@.take(i as int), value@),
        decreases n - i,
    {
        let c = pattern.get_char(i);
        proof {
            assert(pattern@.take(i + 1).drop_last() == pattern@.take(i as int));
        }
        if c == PLACEHOLDER {
            let piece = pattern.substring_char(start, i);
            res.append(piece);
            res.append(value);
            start = i + 1;
            assert(pattern@.subrange(start as int, start as int) == Seq::<char>::empty());
            assert(res@ + pattern@.subrange(start as int, (i + 1) as int) == res@);
        } else {
            assert(pattern@.subrange(start as int, (i + 1) as int) == pattern@.subrange(
                start as int,
                i as int,
            ).push(c));
        }
        i = i + 1;
    }
    let tail = pattern.substring_char(start, n);
    res.append(tail);
    assert(pattern@.take(n as int) == pattern@);
    res
}

/// Expands `pattern` once for each value, keeping the order of the values.
pub fn map_value_to_pattern(values: Vec<String>, pattern: String) -> (r: Vec<String>)
    ensures
        r.len() == values.len(),
        forall|i: int| 0 <= i < values.len() ==> #[trigger] r[i]@ == expand(pattern@, values[i]@),
{
    let mut out: Vec<String> = Vec::new();
    let mut i: usize = 0;
    while i < values.len()
        invariant
            i <= values.len(),
            out.len() == i,
            forall|j: int| 0 <= j < i ==> #[trigger] out[j]@ == expand(pattern@, values[j]@),
        decreases values.len() - i,
    {
        let e = expand_pattern(pattern.as_str(), values[i].as_str());
        out.push(e);
        i = i + 1;
    }
    out
}

/// A pattern made of the placeholder alone gives back the value unchanged.
pub proof fn lemma_lone_placeholder(value: Seq<char>)
    ensures
        expand(seq![PLACEHOLDER], value) == value,
{
    let t = seq![PLACEHOLDER];
    assert(t.drop_last() == Seq::<char>::empty());
    assert(expand(t.drop_last(), value) == Seq::<char>::empty());
    assert(Seq::<char>::empty() + value == value);
}

/// A pattern without placeholders expands to itself, whatever the value.
pub proof fn lemma_expand_without_placeholder(template: Seq<char>, value: Seq<char>)
    requires
        placeholder_free(template),
    ensures
        expand(template, value) == template,
    decreases template.len(),
{
    if template.len() > 0 {
        lemma_expand_without_placeholder(template.drop_last(), value);
        assert(template.drop_last().push(template.last()) == template);
    }
}

/// Expanding with a value that holds no placeholder leaves none behind.
pub proof fn lemma_expand_placeholder_free(template: Seq<char>, value: Seq<char>)
    requires
        placeholder_free(value),
    ensures
        placeholder_free(expand(template, value)),
    decreases template.len(),
{
    if template.len() > 0 {
        lemma_expand_placeholder_free(template.drop_last(), value);
        let front = expand(template.drop_last(), value);
        if template.last() == PLACEHOLDER {
            assert forall|i: int| 0 <= i < (front + value).len() implies (front + value)[i]
                != PLACEHOLDER by {
                if i >= front.len() {
                    assert((front + value)[i] == value[i - front.len()]);
                }
            }
        }
    }
}

/// Expansion is idempotent when the value holds no placeholder: expanding
/// the result again with the same value changes nothing.
pub proof fn lemma_expand_idempotent(template: Seq<char>, value: Seq<char>)
    requires
        placeholder_free(value),
    ensures
        expand(expand(template, value), value) == expand(template, value),
{
    lemma_expand_placeholder_free(template, value);
    lemma_expand_without_placeholder(expand(template, value), value);
}

} // verus!
