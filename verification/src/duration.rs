//! Parsing of a connection's reported duration text.
//!
//! The transit service reports a duration as `HH:MM:SS`, optionally
//! preceded by a day count and a literal `d` (`2d01:23:00`). Only the
//! part after the last `d` is read: a day count is discarded, and the
//! seconds field is ignored without being validated.

use vstd::prelude::*;

use crate::text::{parse_u32, spec_parse_u32};

verus! {

/// The part of the sequence after its last `'d'`; the whole sequence
/// when it holds no `'d'`.
pub open spec fn after_last_d(s: Seq<char>) -> Seq<char>
    decreases s.len(),
{
    if s.len() == 0 {
        seq![]
    } else if s.last() == 'd' {
        seq![]
    } else {
        after_last_d(s.drop_last()).push(s.last())
    }
}

/// The parts of the sequence between its `':'` characters, in order,
/// empty parts included.
pub open spec fn split_colon(t: Seq<char>) -> Seq<Seq<char>>
    decreases t.len(),
{
    if t.len() == 0 {
        seq![Seq::<char>::empty()]
    } else if t.last() == ':' {
        split_colon(t.drop_last()).push(Seq::<char>::empty())
    } else {
        let p = split_colon(t.drop_last());
        p.update(p.len() - 1, p.last().push(t.last()))
    }
}

/// How many `':'` characters the sequence holds.
pub open spec fn colon_count(t: Seq<char>) -> nat
    decreases t.len(),
{
    if t.len() == 0 {
        0
    } else {
        colon_count(t.drop_last()) + if t.last() == ':' {
            1nat
        } else {
            0nat
        }
    }
}

/// What parsing a duration text as whole minutes yields: the part after
/// the last `'d'` must split on `':'` into exactly three fields; the
/// first two are read as hours and minutes, the third is ignored. A day
/// count before the `'d'` is discarded. A total beyond the type's range
/// saturates to its maximum.
pub open spec fn spec_parse_duration(s: Seq<char>) -> Option<u32> {
    let parts = split_colon(after_last_d(s));
    if parts.len() != 3 {
        None
    } else {
        match (spec_parse_u32(parts[0]), spec_parse_u32(parts[1])) {
            (Some(h), Some(m)) => if h * 60 + m <= u32::MAX {
                Some((h * 60 + m) as u32)
            } else {
                Some(u32::MAX)
            },
            _ => None,
        }
    }
}

proof fn lemma_split_colon_len(t: Seq<char>)
    ensures
        split_colon(t).len() == colon_count(t) + 1,
    decreases t.len(),
{
    if t.len() > 0 {
        lemma_split_colon_len(t.drop_last());
    }
}

proof fn lemma_after_last_d_none(s: Seq<char>)
    requires
        forall|k: int| 0 <= k < s.len() ==> s[k] != 'd',
    ensures
        after_last_d(s) == s,
    decreases s.len(),
{
    if s.len() == 0 {
        assert(after_last_d(s) =~= s);
    } else {
        lemma_after_last_d_none(s.drop_last());
        assert(s.drop_last().push(s.last()) =~= s);
    }
}

proof fn lemma_after_last_d_at(s: Seq<char>, p: int)
    requires
        0 <= p < s.len(),
        s[p] == 'd',
        forall|k: int| p < k < s.len() ==> s[k] != 'd',
    ensures
        after_last_d(s) == s.subrange(p + 1, s.len() as int),
    decreases s.len(),
{
    if p == s.len() - 1 {
        assert(s.last() == 'd');
        assert(after_last_d(s) =~= s.subrange(p + 1, s.len() as int));
    } else {
        lemma_after_last_d_at(s.drop_last(), p);
        assert(s.drop_last().subrange(p + 1, s.drop_last().len() as int).push(s.last()) =~= s
            .subrange(p + 1, s.len() as int));
    }
}

proof fn lemma_split_colon_0(t: Seq<char>)
    requires
        forall|k: int| 0 <= k < t.len() ==> t[k] != ':',
    ensures
        split_colon(t) == seq![t],
    decreases t.len(),
{
    if t.len() == 0 {
        assert(split_colon(t) =~~= seq![t]);
    } else {
        lemma_split_colon_0(t.drop_last());
        assert(t.drop_last().push(t.last()) =~= t);
        assert(split_colon(t) =~~= seq![t]);
    }
}

proof fn lemma_split_colon_1(t: Seq<char>, q: int)
    requires
        0 <= q < t.len(),
        t[q] == ':',
        forall|k: int| 0 <= k < t.len() && k != q ==> t[k] != ':',
    ensures
        split_colon(t) == seq![t.subrange(0, q), t.subrange(q + 1, t.len() as int)],
    decreases t.len(),
{
    if q == t.len() - 1 {
        assert(t.last() == ':');
        assert(forall|k: int| 0 <= k < t.drop_last().len() ==> t.drop_last()[k] != ':');
        lemma_split_colon_0(t.drop_last());
        assert(t.drop_last() =~= t.subrange(0, q));
        assert(split_colon(t) =~~= seq![t.subrange(0, q), t.subrange(q + 1, t.len() as int)]);
    } else {
        lemma_split_colon_1(t.drop_last(), q);
        assert(t.drop_last().subrange(q + 1, t.drop_last().len() as int).push(t.last()) =~= t
            .subrange(q + 1, t.len() as int));
        assert(t.drop_last().subrange(0, q) =~= t.subrange(0, q));
        assert(split_colon(t) =~~= seq![t.subrange(0, q), t.subrange(q + 1, t.len() as int)]);
    }
}

proof fn lemma_split_colon_2(t: Seq<char>, q1: int, q2: int)
    requires
        0 <= q1 < q2 < t.len(),
        t[q1] == ':',
        t[q2] == ':',
        forall|k: int| 0 <= k < t.len() && k != q1 && k != q2 ==> t[k] != ':',
    ensures
        split_colon(t) == seq![
            t.subrange(0, q1),
            t.subrange(q1 + 1, q2),
            t.subrange(q2 + 1, t.len() as int),
        ],
    decreases t.len(),
{
    if q2 == t.len() - 1 {
        assert(t.last() == ':');
        lemma_split_colon_1(t.drop_last(), q1);
        assert(t.drop_last().subrange(0, q1) =~= t.subrange(0, q1));
        assert(t.drop_last().subrange(q1 + 1, t.drop_last().len() as int) =~= t.subrange(
            q1 + 1,
            q2,
        ));
        assert(split_colon(t) =~~= seq![
            t.subrange(0, q1),
            t.subrange(q1 + 1, q2),
            t.subrange(q2 + 1, t.len() as int),
        ]);
    } else {
        lemma_split_colon_2(t.drop_last(), q1, q2);
        assert(t.drop_last().subrange(0, q1) =~= t.subrange(0, q1));
        assert(t.drop_last().subrange(q1 + 1, q2) =~= t.subrange(q1 + 1, q2));
        assert(t.drop_last().subrange(q2 + 1, t.drop_last().len() as int).push(t.last()) =~= t
            .subrange(q2 + 1, t.len() as int));
        assert(split_colon(t) =~~= seq![
            t.subrange(0, q1),
            t.subrange(q1 + 1, q2),
            t.subrange(q2 + 1, t.len() as int),
        ]);
    }
}

/// Reads a duration text of the form `[Dd]HH:MM:SS` as whole minutes:
/// `hours * 60 + minutes`. A day count before the last `'d'` is
/// silently discarded, and the seconds field is ignored. Returns `None`
/// exactly when the text does not have three `':'`-separated fields
/// after the last `'d'` or when hours or minutes fail to parse as
/// numbers; a total beyond the type's range saturates to its maximum.
pub fn parse_duration_to_minutes(s: &str) -> (r: Option<u32>)
    ensures
        r == spec_parse_duration(s@),
{
    let len = s.unicode_len();

    // Find the position of the last 'd', if any.
    let mut dpos: usize = 0;
    let mut has_d = false;
    let mut k: usize = 0;
    while k < len
        invariant
            k <= len,
            len == s@.len(),
            has_d ==> dpos < k && s@[dpos as int] == 'd' && (forall|u: int|
                dpos < u < k ==> s@[u] != 'd'),
            !has_d ==> forall|u: int| 0 <= u < k ==> s@[u] != 'd',
        decreases len - k,
    {
        if s.get_char(k) == 'd' {
            dpos = k;
            has_d = true;
        }
        k += 1;
    }
    let start: usize = if has_d {
        dpos + 1
    } else {
        0
    };
    let ghost t = after_last_d(s@);
    proof {
        if has_d {
            lemma_after_last_d_at(s@, dpos as int);
        } else {
            lemma_after_last_d_none(s@);
            assert(s@.subrange(0, len as int) =~= s@);
        }
        assert(t == s@.subrange(start as int, len as int));
    }

    // Find the first two ':' positions and count all of them.
    let mut ncolon: usize = 0;
    let mut c1: usize = 0;
    let mut c2: usize = 0;
    let mut k2: usize = start;
    while k2 < len
        invariant
            start <= k2 <= len,
            len == s@.len(),
            t == s@.subrange(start as int, len as int),
            ncolon <= k2 - start,
            ncolon == colon_count(t.take(k2 - start)),
            ncolon >= 1 ==> start <= c1 < k2 && t[c1 - start] == ':',
            ncolon >= 2 ==> c1 < c2 < k2 && t[c2 - start] == ':',
            ncolon == 0 ==> forall|u: int| 0 <= u < k2 - start ==> t[u] != ':',
            ncolon == 1 ==> forall|u: int| 0 <= u < k2 - start && u != c1 - start ==> t[u] != ':',
            ncolon == 2 ==> forall|u: int|
                0 <= u < k2 - start && u != c1 - start && u != c2 - start ==> t[u] != ':',
        decreases len - k2,
    {
        proof {
            assert(t.take(k2 - start + 1).drop_last() =~= t.take(k2 - start));
            assert(t.take(k2 - start + 1).last() == t[k2 - start]);
        }
        if s.get_char(k2) == ':' {
            if ncolon == 0 {
                c1 = k2;
            } else if ncolon == 1 {
                c2 = k2;
            }
            ncolon += 1;
        }
        k2 += 1;
    }
    proof {
        assert(t.take(len - start) =~= t);
        lemma_split_colon_len(t);
    }

    if ncolon != 2 {
        return None;
    }
    let ghost q1 = c1 - start;
    let ghost q2 = c2 - start;
    proof {
        lemma_split_colon_2(t, q1, q2);
        assert(s@.subrange(start as int, c1 as int) =~= t.subrange(0, q1));
        assert(s@.subrange(c1 + 1, c2 as int) =~= t.subrange(q1 + 1, q2));
    }
    let hours_s = s.substring_char(start, c1);
    let mins_s = s.substring_char(c1 + 1, c2);
    let hours = match parse_u32(hours_s) {
        Some(h) => h,
        None => {
            return None;
        },
    };
    let minutes = match parse_u32(mins_s) {
        Some(m) => m,
        None => {
            return None;
        },
    };
    let total: u64 = hours as u64 * 60 + minutes as u64;
    if total > 0xffff_ffff {
        Some(u32::MAX)
    } else {
        Some(total as u32)
    }
}

} // verus!
