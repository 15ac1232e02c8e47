//! Whitespace trimming of reply text.

use vstd::prelude::*;
use vstd::string::*;

verus! {

/// Whether `c` has the Unicode property `White_Space`.
pub open spec fn is_whitespace(c: char) -> bool {
    let u = c as u32;
    ||| 0x09 <= u <= 0x0D
    ||| u == 0x20
    ||| u == 0x85
    ||| u == 0xA0
    ||| u == 0x1680
    ||| 0x2000 <= u <= 0x200A
    ||| u == 0x2028
    ||| u == 0x2029
    ||| u == 0x202F
    ||| u == 0x205F
    ||| u == 0x3000
}

/// Whether every character of `s` is whitespace.
pub open spec fn all_whitespace(s: Seq<char>) -> bool {
    forall|i: int| 0 <= i < s.len() ==> is_whitespace(#[trigger] s[i])
}

/// `s` without its longest prefix of whitespace.
pub open spec fn trimmed_start(s: Seq<char>) -> Seq<char>
    decreases s.len(),
{
    if s.len() > 0 && is_whitespace(s.first()) {
        trimmed_start(s.drop_first())
    } else {
        s
    }
}

/// `s` without its longest suffix of whitespace.
pub open spec fn trimmed_end(s: Seq<char>) -> Seq<char>
    decreases s.len(),
{
    if s.len() > 0 && is_whitespace(s.last()) {
        trimmed_end(s.drop_last())
    } else {
        s
    }
}

/// `s` without leading and trailing whitespace.
pub open spec fn trimmed(s: Seq<char>) -> Seq<char> {
    trimmed_end(trimmed_start(s))
}

/// Dropping a whitespace prefix first does not change what `trimmed_start` leaves.
proof fn lemma_trimmed_start_skips(s: Seq<char>, k: int)
    requires
        0 <= k <= s.len(),
        all_whitespace(s.subrange(0, k)),
    ensures
        trimmed_start(s) == trimmed_start(s.subrange(k, s.len() as int)),
    decreases k,
{
    if k == 0 {
        assert(s.subrange(0, s.len() as int) =~= s);
    } else {
        assert(s.first() == s.subrange(0, k)[0]);
        let rest = s.drop_first();
        assert forall|i: int| 0 <= i < k - 1 implies is_whitespace(
            #[trigger] rest.subrange(0, k - 1)[i],
        ) by {
            assert(rest.subrange(0, k - 1)[i] == s.subrange(0, k)[i + 1]);
        }
        lemma_trimmed_start_skips(rest, k - 1);
        assert(rest.subrange(k - 1, rest.len() as int) =~= s.subrange(k, s.len() as int));
    }
}

/// Dropping a whitespace suffix first does not change what `trimmed_end` leaves.
proof fn lemma_trimmed_end_skips(s: Seq<char>, k: int)
    requires
        0 <= k <= s.len(),
        all_whitespace(s.subrange(k, s.len() as int)),
    ensures
        trimmed_end(s) == trimmed_end(s.subrange(0, k)),
    decreases s.len() - k,
{
    if k == s.len() {
        assert(s.subrange(0, k) =~= s);
    } else {
        assert(s.last() == s.subrange(k, s.len() as int)[s.len() - k - 1]);
        let rest = s.drop_last();
        assert forall|i: int| 0 <= i < rest.len() - k implies is_whitespace(
            #[trigger] rest.subrange(k, rest.len() as int)[i],
        ) by {
            assert(rest.subrange(k, rest.len() as int)[i] == s.subrange(k, s.len() as int)[i]);
        }
        lemma_trimmed_end_skips(rest, k);
        assert(rest.subrange(0, k) =~= s.subrange(0, k));
    }
}

/// Trimming takes the middle out of any split of `s` into whitespace, a part
/// that neither starts nor ends with whitespace, and whitespace.
pub proof fn lemma_trimmed_is_middle(s: Seq<char>, from: int, to: int)
    requires
        0 <= from <= to <= s.len(),
        all_whitespace(s.subrange(0, from)),
        all_whitespace(s.subrange(to, s.len() as int)),
        from < to ==> !is_whitespace(s[from]) && !is_whitespace(s[to - 1]),
    ensures
        trimmed(s) == s.subrange(from, to),
{
    let rest = s.subrange(from, s.len() as int);
    let middle = s.subrange(from, to);
    lemma_trimmed_start_skips(s, from);
    assert(rest.subrange(to - from, rest.len() as int) =~= s.subrange(to, s.len() as int));
    assert(rest.subrange(0, to - from) =~= middle);
    if from < to {
        assert(trimmed_start(rest) == rest);
        lemma_trimmed_end_skips(rest, to - from);
        assert(trimmed_end(middle) == middle);
    } else {
        lemma_trimmed_start_skips(rest, rest.len() as int);
        assert(trimmed_start(rest.subrange(rest.len() as int, rest.len() as int)) =~= middle);
    }
}

/// What trimming leaves neither starts nor ends with whitespace, and trimming
/// it again changes nothing.
pub proof fn lemma_trimmed_is_tight(s: Seq<char>)
    ensures
        trimmed(s).len() > 0 ==> !is_whitespace(trimmed(s).first()) && !is_whitespace(
            trimmed(s).last(),
        ),
        trimmed(trimmed(s)) == trimmed(s),
{
    let start = trimmed_start(s);
    lemma_trimmed_start_is_tight(s);
    lemma_trimmed_end_is_tight(start);
    lemma_trimmed_end_keeps_first(start);
    let both = trimmed_end(start);
    assert(trimmed_start(both) == both);
    assert(trimmed_end(both) == both);
}

proof fn lemma_trimmed_start_is_tight(s: Seq<char>)
    ensures
        trimmed_start(s).len() > 0 ==> !is_whitespace(trimmed_start(s).first()),
    decreases s.len(),
{
    if s.len() > 0 && is_whitespace(s.first()) {
        lemma_trimmed_start_is_tight(s.drop_first());
    }
}

proof fn lemma_trimmed_end_is_tight(s: Seq<char>)
    ensures
        trimmed_end(s).len() > 0 ==> !is_whitespace(trimmed_end(s).last()),
    decreases s.len(),
{
    if s.len() > 0 && is_whitespace(s.last()) {
        lemma_trimmed_end_is_tight(s.drop_last());
    }
}

proof fn lemma_trimmed_end_keeps_first(s: Seq<char>)
    ensures
        trimmed_end(s).len() > 0 ==> trimmed_end(s).first() == s.first(),
    decreases s.len(),
{
    if s.len() > 0 && is_whitespace(s.last()) {
        lemma_trimmed_end_keeps_first(s.drop_last());
    }
}

/// Whether `c` is a whitespace character.
pub fn is_whitespace_char(c: char) -> (b: bool)
    ensures
        b == is_whitespace(c),
{
    let u: u32 = c as u32;
    (0x09 <= u && u <= 0x0D) || u == 0x20 || u == 0x85 || u == 0xA0 || u == 0x1680 || (0x2000 <= u
        && u <= 0x200A) || u == 0x2028 || u == 0x2029 || u == 0x202F || u == 0x205F || u == 0x3000
}

/// Returns `s` without leading and trailing whitespace.
pub fn trim(s: &str) -> (r: String)
    ensures
        r@ == trimmed(s@),
{
    let n: usize = s.unicode_len();
    let mut start: usize = 0;
    while start < n && is_whitespace_char(s.get_char(start))
        invariant
            start <= n,
            n == s@.len(),
            all_whitespace(s@.subrange(0, start as int)),
        decreases n - start,
    {
        start = start + 1;
    }
    let mut end: usize = n;
    while end > start && is_whitespace_char(s.get_char(end - 1))
        invariant
            start <= end <= n,
            n == s@.len(),
            all_whitespace(s@.subrange(end as int, n as int)),
        decreases end - start,
    {
        proof {
            let wider = s@.subrange(end - 1, n as int);
            let tail = s@.subrange(end as int, n as int);
            assert forall|i: int| 0 <= i < wider.len() implies is_whitespace(
                #[trigger] wider[i],
            ) by {
                if i > 0 {
                    assert(wider[i] == tail[i - 1]);
                }
            }
        }
        end = end - 1;
    }
    proof {
        lemma_trimmed_is_middle(s@, start as int, end as int);
    }
    s.substring_char(start, end).to_owned()
}

} // verus!
