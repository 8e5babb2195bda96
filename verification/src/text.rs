//! Replacing placeholders in a text.

use vstd::prelude::*;
use vstd::std_specs::iter::IteratorSpec;
use vstd::string::{spec_iter, StrSliceExecFns, StringExecFns};

verus! {

broadcast use vstd::string::group_string_axioms;

/// True when `text` begins with `pattern`.
pub open spec fn starts_with(text: Seq<char>, pattern: Seq<char>) -> bool {
    pattern.len() <= text.len() && text.subrange(0, pattern.len() as int) == pattern
}

/// `text` with every occurrence of `from` replaced by `to`: occurrences
/// are taken from the left and do not overlap. Nothing is replaced where
/// `from` is empty.
pub open spec fn replaced(text: Seq<char>, from: Seq<char>, to: Seq<char>) -> Seq<char>
    decreases text.len(),
{
    if from.len() == 0 || text.len() == 0 {
        text
    } else if starts_with(text, from) {
        to + replaced(text.skip(from.len() as int), from, to)
    } else {
        seq![text[0]] + replaced(text.skip(1), from, to)
    }
}

/// The characters of `text`.
pub fn chars_of(text: &str) -> (chars: Vec<char>)
    ensures
        chars@ == text@,
{
    let mut chars: Vec<char> = Vec::new();
    for c in it: text.chars()
        invariant
            chars@ == it.seq().take(it.index() as int),
    {
        chars.push(c);
        assert(chars@ =~= it.seq().take(it.index() as int + 1));
    }
    assert(chars@ =~= spec_iter(text).remaining());
    chars
}

/// True when `pattern` stands in `text` at position `at`.
pub fn stands_at(text: &Vec<char>, at: usize, pattern: &Vec<char>) -> (r: bool)
    requires
        at <= text@.len(),
    ensures
        r == starts_with(text@.skip(at as int), pattern@),
{
    if pattern.len() > text.len() - at {
        return false;
    }
    let mut i: usize = 0;
    while i < pattern.len()
        invariant
            i <= pattern.len() <= text.len() - at,
            at <= text.len(),
            text@.skip(at as int).subrange(0, i as int) == pattern@.subrange(0, i as int),
        decreases pattern.len() - i,
    {
        if text[at + i] != pattern[i] {
            assert(text@.skip(at as int).subrange(0, pattern.len() as int)[i as int]
                != pattern@[i as int]);
            return false;
        }
        assert(text@.skip(at as int).subrange(0, i as int + 1) =~= text@.skip(
            at as int,
        ).subrange(0, i as int).push(text@[at + i]));
        assert(pattern@.subrange(0, i as int + 1) =~= pattern@.subrange(0, i as int).push(
            pattern@[i as int],
        ));
        i += 1;
    }
    assert(pattern@.subrange(0, pattern.len() as int) =~= pattern@);
    true
}

/// `text` with every occurrence of `from` replaced by `to`.
pub fn replace_all(text: &str, from: &str, to: &str) -> (r: String)
    ensures
        r@ == replaced(text@, from@, to@),
{
    let chars = chars_of(text);
    let pattern = chars_of(from);
    let n: usize = chars.len();
    let m: usize = pattern.len();
    if m == 0 {
        return String::from_str(text);
    }
    let ghost whole = replaced(text@, from@, to@);
    let mut out = String::new();
    let mut start: usize = 0;
    let mut i: usize = 0;
    proof {
        assert(text@.skip(0) =~= text@);
        assert(out@ + text@.subrange(0, 0) + whole =~= whole);
    }
    while i < n
        invariant
            start <= i <= n,
            n == chars@.len(),
            m == pattern@.len(),
            m > 0,
            chars@ == text@,
            pattern@ == from@,
            whole == replaced(text@, from@, to@),
            out@ + text@.subrange(start as int, i as int) + replaced(
                text@.skip(i as int),
                from@,
                to@,
            ) == whole,
        decreases n - i,
    {
        let ghost rest = text@.skip(i as int);
        if stands_at(&chars, i, &pattern) {
            let ghost before = out@;
            out.append(text.substring_char(start, i));
            out.append(to);
            proof {
                assert(rest.skip(m as int) =~= text@.skip(i + m));
                assert(before + text@.subrange(start as int, i as int) + to@
                    + text@.subrange(i + m, i + m) + replaced(text@.skip(i + m), from@, to@)
                    =~= before + text@.subrange(start as int, i as int) + (to@ + replaced(
                    rest.skip(m as int),
                    from@,
                    to@,
                )));
            }
            i += m;
            start = i;
        } else {
            proof {
                assert(rest.skip(1) =~= text@.skip(i + 1));
                assert(out@ + text@.subrange(start as int, i + 1) + replaced(
                    text@.skip(i + 1),
                    from@,
                    to@,
                ) =~= out@ + text@.subrange(start as int, i as int) + (seq![rest[0]] + replaced(
                    rest.skip(1),
                    from@,
                    to@,
                )));
            }
            i += 1;
        }
    }
    proof {
        assert(text@.skip(n as int) =~= Seq::<char>::empty());
        assert(out@ + text@.subrange(start as int, n as int) + Seq::<char>::empty() =~= out@
            + text@.subrange(start as int, n as int));
    }
    out.append(text.substring_char(start, n));
    out
}

} // verus!
