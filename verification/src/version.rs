//! Version strings such as `1.2.3`, and which of two is the newer.

use vstd::prelude::*;
use vstd::slice::slice_subrange;
use vstd::string::StringSliceAdditionalSpecFns;

verus! {

/// Whether a byte is a decimal digit.
pub open spec fn is_digit(b: u8) -> bool {
    0x30 <= b <= 0x39
}

/// Whether every byte is a decimal digit.
pub open spec fn all_digits(s: Seq<u8>) -> bool {
    forall|i: int| 0 <= i < s.len() ==> is_digit(#[trigger] s[i])
}

/// The number that a string of decimal digits writes.
pub open spec fn decimal(digits: Seq<u8>) -> nat
    decreases digits.len(),
{
    if digits.len() == 0 {
        0
    } else {
        decimal(digits.drop_last()) * 10 + (digits.last() - 0x30) as nat
    }
}

/// A number's text without the plus sign that may stand before it.
pub open spec fn unsigned_part(s: Seq<u8>) -> Seq<u8> {
    if s.len() > 0 && s[0] == 0x2B {
        s.subrange(1, s.len() as int)
    } else {
        s
    }
}

/// The number that a text writes: an optional plus sign and then one or more
/// decimal digits, whose value fits the machine word. Every other text
/// writes no number.
pub open spec fn spec_parse_number(s: Seq<u8>) -> Option<usize> {
    let d = unsigned_part(s);
    if d.len() > 0 && all_digits(d) && decimal(d) <= usize::MAX {
        Some(decimal(d) as usize)
    } else {
        None
    }
}

proof fn lemma_decimal_grows(d: Seq<u8>, k: int)
    requires
        all_digits(d),
        0 <= k <= d.len(),
    ensures
        decimal(d.subrange(0, k)) <= decimal(d),
    decreases d.len() - k,
{
    if k < d.len() {
        lemma_decimal_grows(d, k + 1);
        let longer = d.subrange(0, k + 1);
        assert(longer.drop_last() =~= d.subrange(0, k));
        assert(is_digit(d[k]));
        assert(longer.last() == d[k]);
    } else {
        assert(d.subrange(0, k) =~= d);
    }
}

/// Reads a number.
pub fn parse_number(s: &[u8]) -> (r: Option<usize>)
    ensures
        r == spec_parse_number(s@),
{
    let start: usize = if s.len() > 0 && s[0] == 0x2B {
        1
    } else {
        0
    };
    let ghost d = unsigned_part(s@);
    assert(d =~= s@.subrange(start as int, s@.len() as int));
    if start == s.len() {
        return None;
    }
    let mut acc: usize = 0;
    let mut i: usize = start;
    assert(d.subrange(0, 0) =~= Seq::<u8>::empty());
    while i < s.len()
        invariant
            start <= i <= s.len(),
            d == unsigned_part(s@),
            d == s@.subrange(start as int, s@.len() as int),
            all_digits(d.subrange(0, i - start)),
            acc == decimal(d.subrange(0, i - start)),
        decreases s.len() - i,
    {
        let b = s[i];
        if b < 0x30 || b > 0x39 {
            assert(!is_digit(d[i - start]));
            return None;
        }
        let digit = (b - 0x30) as usize;
        proof {
            let longer = d.subrange(0, i - start + 1);
            assert(longer.drop_last() =~= d.subrange(0, i - start));
            assert(longer.last() == b);
            assert(decimal(longer) == acc * 10 + digit);
            assert forall|j: int| 0 <= j < longer.len() implies is_digit(#[trigger] longer[j]) by {
                if j < longer.len() - 1 {
                    assert(longer[j] == d.subrange(0, i - start)[j]);
                }
            }
            if all_digits(d) {
                lemma_decimal_grows(d, i - start + 1);
            }
        }
        if acc > (usize::MAX - digit) / 10 {
            return None;
        }
        acc = acc * 10 + digit;
        i += 1;
    }
    assert(d.subrange(0, i - start) =~= d);
    Some(acc)
}

/// The first place at or after `from` where `s` holds a dot; the length of
/// `s` if there is none.
pub open spec fn next_dot(s: Seq<u8>, from: int) -> int
    decreases s.len() - from,
{
    if from < 0 || from >= s.len() {
        s.len() as int
    } else if s[from] == 0x2E {
        from
    } else {
        next_dot(s, from + 1)
    }
}

/// Where the parts between the dots of `s` begin and end, from the part
/// that begins at `from` on.
pub open spec fn part_bounds(s: Seq<u8>, from: int) -> Seq<(int, int)>
    decreases s.len() - from,
{
    let p = next_dot(s, from);
    if from < 0 || p < from || p >= s.len() {
        seq![(from, s.len() as int)]
    } else {
        seq![(from, p)] + part_bounds(s, p + 1)
    }
}

/// The parts between the dots of `s`. A text with n dots has n + 1 parts,
/// some of them empty perhaps.
pub open spec fn parts(s: Seq<u8>) -> Seq<Seq<u8>> {
    part_bounds(s, 0).map(|i: int, b: (int, int)| s.subrange(b.0, b.1))
}

fn find_dot(s: &[u8], from: usize) -> (at: usize)
    requires
        from <= s@.len(),
    ensures
        at == next_dot(s@, from as int),
        from <= at <= s@.len(),
{
    let mut i: usize = from;
    while i < s.len()
        invariant
            from <= i <= s.len(),
            next_dot(s@, from as int) == next_dot(s@, i as int),
        decreases s.len() - i,
    {
        if s[i] == 0x2E {
            return i;
        }
        i += 1;
    }
    s.len()
}

/// Whether the exec bounds are the given ones.
spec fn same_bounds(found: Seq<(usize, usize)>, bounds: Seq<(int, int)>) -> bool {
    &&& found.len() == bounds.len()
    &&& forall|i: int|
        0 <= i < found.len() ==> (#[trigger] found[i]).0 == bounds[i].0 && found[i].1
            == bounds[i].1
}

fn split_dots(s: &[u8]) -> (found: Vec<(usize, usize)>)
    ensures
        same_bounds(found@, part_bounds(s@, 0)),
        forall|i: int|
            0 <= i < found@.len() ==> (#[trigger] found@[i]).0 <= found@[i].1 <= s@.len(),
{
    let mut found: Vec<(usize, usize)> = Vec::new();
    let mut from: usize = 0;
    let ghost mut done: Seq<(int, int)> = Seq::empty();
    loop
        invariant_except_break
            part_bounds(s@, 0) == done + part_bounds(s@, from as int),
        invariant
            from <= s.len(),
            same_bounds(found@, done),
            forall|i: int|
                0 <= i < found@.len() ==> (#[trigger] found@[i]).0 <= found@[i].1 <= s@.len(),
        ensures
            same_bounds(found@, part_bounds(s@, 0)),
            forall|i: int|
                0 <= i < found@.len() ==> (#[trigger] found@[i]).0 <= found@[i].1 <= s@.len(),
        decreases s.len() - from,
    {
        let p = find_dot(s, from);
        found.push((from, p));
        proof {
            done = done.push((from as int, p as int));
        }
        if p >= s.len() {
            proof {
                assert(part_bounds(s@, from as int) =~= seq![(from as int, s@.len() as int)]);
                assert(part_bounds(s@, 0) =~= done);
            }
            break ;
        }
        proof {
            assert(part_bounds(s@, from as int) =~= seq![(from as int, p as int)] + part_bounds(
                s@,
                p + 1,
            ));
            assert(part_bounds(s@, 0) =~= done + part_bounds(s@, p + 1));
        }
        from = p + 1;
    }
    found
}

/// The three numbers of a version, if the text is three numbers with a dot
/// between each two.
pub open spec fn spec_parse_version(s: Seq<u8>) -> Option<(usize, usize, usize)> {
    let p = parts(s);
    if p.len() == 3 && spec_parse_number(p[0]) is Some && spec_parse_number(p[1]) is Some
        && spec_parse_number(p[2]) is Some {
        Some(
            (
                spec_parse_number(p[0])->0,
                spec_parse_number(p[1])->0,
                spec_parse_number(p[2])->0,
            ),
        )
    } else {
        None
    }
}

/// Reads a version of three numbers.
pub fn parse_version(version: &str) -> (r: Option<(usize, usize, usize)>)
    ensures
        r == spec_parse_version(version.spec_bytes()),
{
    let s = version.as_bytes();
    let bounds = split_dots(s);
    if bounds.len() != 3 {
        return None;
    }
    let a = parse_number(slice_subrange(s, bounds[0].0, bounds[0].1));
    let b = parse_number(slice_subrange(s, bounds[1].0, bounds[1].1));
    let c = parse_number(slice_subrange(s, bounds[2].0, bounds[2].1));
    match (a, b, c) {
        (Some(a), Some(b), Some(c)) => Some((a, b, c)),
        _ => None,
    }
}

/// A version text without the `v` that may stand before it.
pub open spec fn without_prefix(s: Seq<u8>) -> Seq<u8> {
    if s.len() > 0 && s[0] == 0x76 {
        s.subrange(1, s.len() as int)
    } else {
        s
    }
}

/// Whether the parts of `new`, from the part numbered `i` on, write a later
/// version than the three numbers of `old`. The parts are compared one by one
/// for as long as both have one; the first that differ decide. A part of
/// `new` that writes no number ends the comparison: `new` is then not taken
/// to be newer.
pub open spec fn newer_from(old: Seq<usize>, new: Seq<Seq<u8>>, i: int) -> bool
    decreases old.len() - i,
{
    if i < 0 || i >= old.len() || i >= new.len() {
        false
    } else {
        match spec_parse_number(new[i]) {
            None => false,
            Some(n) => if old[i] > n {
                false
            } else if old[i] < n {
                true
            } else {
                newer_from(old, new, i + 1)
            },
        }
    }
}

/// Whether `new` is a later version than `old`, which is three numbers.
pub open spec fn spec_is_newer(old: (usize, usize, usize), new: Seq<u8>) -> bool {
    newer_from(seq![old.0, old.1, old.2], parts(without_prefix(new)), 0)
}

/// Whether the version that `new` writes is later than the version `old`.
/// `new` may begin with a `v`. `old` must be a version of three numbers.
pub fn is_version_string_newer(old: &str, new: &str) -> (newer: bool)
    requires
        spec_parse_version(old.spec_bytes()) is Some,
    ensures
        newer == spec_is_newer(spec_parse_version(old.spec_bytes())->0, new.spec_bytes()),
{
    let old_numbers = match parse_version(old) {
        Some(numbers) => [numbers.0, numbers.1, numbers.2],
        None => [0, 0, 0],
    };
    let ghost known = spec_parse_version(old.spec_bytes())->0;
    let all = new.as_bytes();
    let s = if all.len() > 0 && all[0] == 0x76 {
        slice_subrange(all, 1, all.len())
    } else {
        all
    };
    assert(s@ =~= without_prefix(new.spec_bytes()));
    let bounds = split_dots(s);
    let ghost old_seq = seq![known.0, known.1, known.2];
    let mut i: usize = 0;
    assert(old_numbers@ =~= old_seq);
    while i < 3 && i < bounds.len()
        invariant
            i <= 3,
            known == spec_parse_version(old.spec_bytes())->0,
            old_seq == seq![known.0, known.1, known.2],
            old_numbers@ == old_seq,
            s@ == without_prefix(new.spec_bytes()),
            same_bounds(bounds@, part_bounds(s@, 0)),
            forall|k: int|
                0 <= k < bounds@.len() ==> (#[trigger] bounds@[k]).0 <= bounds@[k].1 <= s@.len(),
            newer_from(old_seq, parts(s@), 0) == newer_from(old_seq, parts(s@), i as int),
        decreases 3 - i,
    {
        let part = slice_subrange(s, bounds[i].0, bounds[i].1);
        let parsed = parse_number(part);
        let o = old_numbers[i];
        proof {
            let ps = parts(s@);
            assert(ps.len() == bounds@.len());
            assert(ps[i as int] == part@);
            assert(o == old_seq[i as int]);
            assert(old_seq.len() == 3);
            assert(newer_from(old_seq, ps, i as int) == (match parsed {
                None => false,
                Some(n) => if o > n {
                    false
                } else if o < n {
                    true
                } else {
                    newer_from(old_seq, ps, i + 1)
                },
            }));
        }
        let n = match parsed {
            None => {
                return false;
            },
            Some(n) => n,
        };
        if o > n {
            return false;
        } else if o < n {
            return true;
        }
        i += 1;
    }
    false
}

} // verus!
