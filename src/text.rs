use vstd::prelude::*;
use crate::coords::Coords;

verus! {

/// Whether `i` is the first index of `s` holding byte `b`.
pub open spec fn first_byte_at(s: Seq<u8>, b: u8, i: int) -> bool {
    &&& 0 <= i < s.len()
    &&& s[i] == b
    &&& forall|j: int| 0 <= j < i ==> #[trigger] s[j] != b
}

/// The first index of `s` holding byte `b`, if any.
pub open spec fn find_byte(s: Seq<u8>, b: u8) -> Option<int> {
    if exists|i: int| first_byte_at(s, b, i) {
        Some(choose|i: int| first_byte_at(s, b, i))
    } else {
        None
    }
}

/// Whether every byte of `s` is an ASCII digit.
pub open spec fn all_digits(s: Seq<u8>) -> bool {
    forall|i: int| 0 <= i < s.len() ==> 48 <= #[trigger] s[i] <= 57
}

/// The decimal value of the digits `s`.
pub open spec fn digits_value(s: Seq<u8>) -> int
    decreases s.len(),
{
    if s.len() == 0 {
        0
    } else {
        digits_value(s.drop_last()) * 10 + (s.last() - 48)
    }
}

/// The `u32` that `s` spells: an optional `+` and at least one digit, with a
/// value that fits.
pub open spec fn parsed_u32(s: Seq<u8>) -> Option<u32> {
    let d = if s.len() > 0 && s[0] == 43 { s.drop_first() } else { s };
    if d.len() > 0 && all_digits(d) && digits_value(d) <= u32::MAX {
        Some(digits_value(d) as u32)
    } else {
        None
    }
}

/// The position written as `(x,y)` in a readout text: the numbers between the
/// first `(` and the first `,` after it, and between that comma and the first
/// `)` after the `(`.
pub open spec fn position_in_text(s: Seq<u8>) -> Option<Coords> {
    match find_byte(s, 40) {
        None => None,
        Some(p) => {
            let rest = s.subrange(p + 1, s.len() as int);
            match (find_byte(rest, 44), find_byte(rest, 41)) {
                (Some(q), Some(e)) => if e < q + 1 {
                    None
                } else {
                    match (parsed_u32(rest.subrange(0, q)), parsed_u32(rest.subrange(q + 1, e))) {
                        (Some(x), Some(y)) => Some(Coords { x, y }),
                        _ => None,
                    }
                },
                _ => None,
            }
        },
    }
}

/// The floor name of a readout text: what stands before its first space, or
/// nothing when it has none.
pub open spec fn floor_in_text(s: Seq<u8>) -> Seq<u8> {
    match find_byte(s, 32) {
        Some(p) => s.subrange(0, p),
        None => seq![],
    }
}

/// The first index at or after `from` of `s` holding `b`.
fn find_byte_from(s: &[u8], b: u8, from: usize) -> (r: Option<usize>)
    requires
        from <= s@.len(),
    ensures
        match r {
            Some(i) => from <= i && first_byte_at(s@.subrange(from as int, s@.len() as int), b, i - from),
            None => find_byte(s@.subrange(from as int, s@.len() as int), b).is_none(),
        },
{
    let ghost t = s@.subrange(from as int, s@.len() as int);
    let mut i = from;
    while i < s.len()
        invariant
            from <= i <= s@.len(),
            t == s@.subrange(from as int, s@.len() as int),
            forall|j: int| 0 <= j < i - from ==> #[trigger] t[j] != b,
        decreases s@.len() - i,
    {
        if s[i] == b {
            assert(first_byte_at(t, b, i - from));
            return Some(i);
        }
        i = i + 1;
    }
    proof {
        assert forall|k: int| !first_byte_at(t, b, k) by {
            if first_byte_at(t, b, k) {
                assert(t[k] != b);
            }
        }
    }
    None
}

proof fn lemma_first_unique(s: Seq<u8>, b: u8, i: int, j: int)
    requires
        first_byte_at(s, b, i),
        first_byte_at(s, b, j),
    ensures
        i == j,
{
    if i < j {
        assert(s[i] != b);
    } else if j < i {
        assert(s[j] != b);
    }
}

proof fn lemma_digits_grow(s: Seq<u8>, i: int)
    requires
        0 <= i < s.len(),
        all_digits(s),
    ensures
        digits_value(s.take(i + 1)) >= digits_value(s.take(i)),
        digits_value(s.take(i + 1)) == digits_value(s.take(i)) * 10 + (s[i] - 48),
{
    assert(s.take(i + 1).drop_last() =~= s.take(i));
    assert(digits_value(s.take(i)) >= 0) by {
        lemma_digits_nonneg(s.take(i));
    }
}

proof fn lemma_digits_nonneg(s: Seq<u8>)
    requires
        all_digits(s),
    ensures
        digits_value(s) >= 0,
    decreases s.len(),
{
    if s.len() > 0 {
        assert(all_digits(s.drop_last()));
        lemma_digits_nonneg(s.drop_last());
    }
}

proof fn lemma_prefix_bound(s: Seq<u8>, i: int, k: int)
    requires
        0 <= i <= k <= s.len(),
        all_digits(s),
    ensures
        digits_value(s.take(k)) >= digits_value(s.take(i)),
    decreases k - i,
{
    if i < k {
        lemma_prefix_bound(s, i, k - 1);
        lemma_digits_grow(s, k - 1);
    }
}

/// The `u32` spelled by `s[lo..hi]`, as `str::parse` reads it.
fn parse_u32(s: &[u8], lo: usize, hi: usize) -> (r: Option<u32>)
    requires
        lo <= hi <= s@.len(),
    ensures
        r == parsed_u32(s@.subrange(lo as int, hi as int)),
{
    let ghost w = s@.subrange(lo as int, hi as int);
    let start = if lo < hi && s[lo] == 43 { lo + 1 } else { lo };
    let ghost d = s@.subrange(start as int, hi as int);
    assert(d =~= (if w.len() > 0 && w[0] == 43 { w.drop_first() } else { w }));
    if start >= hi {
        return None;
    }
    let mut i = start;
    let mut v: u64 = 0;
    while i < hi
        invariant
            start <= i <= hi,
            hi <= s@.len(),
            d == s@.subrange(start as int, hi as int),
            d == (if s@.subrange(lo as int, hi as int).len() > 0 && s@.subrange(lo as int, hi as int)[0] == 43 {
                s@.subrange(lo as int, hi as int).drop_first()
            } else {
                s@.subrange(lo as int, hi as int)
            }),
            all_digits(d.take(i - start)),
            v == digits_value(d.take(i - start)),
            v <= u32::MAX,
        decreases hi - i,
    {
        let c = s[i];
        if c < 48 || c > 57 {
            proof {
                assert(d[i - start] == c);
                assert(!all_digits(d));
            }
            return None;
        }
        proof {
            assert(all_digits(d.take(i - start + 1)));
            lemma_digits_grow(d.take(i - start + 1), i - start);
            assert(d.take(i - start + 1).take(i - start) =~= d.take(i - start));
            assert(d.take(i - start + 1).take(i - start + 1) =~= d.take(i - start + 1));
        }
        let next = v * 10 + (c - 48) as u64;
        assert(next == digits_value(d.take(i - start + 1)));
        if next > u32::MAX as u64 {
            proof {
                if all_digits(d) {
                    lemma_prefix_bound(d, i - start + 1, d.len() as int);
                    assert(d.take(d.len() as int) =~= d);
                    assert(digits_value(d) > u32::MAX);
                }
            }
            return None;
        }
        v = next;
        i = i + 1;
    }
    assert(d.take(d.len() as int) =~= d);
    Some(v as u32)
}

/// Reads a coordinate readout text: the floor name before its first space,
/// and the position written as `(x,y)`; where the text holds no readable
/// position, `old_position` stands.
pub fn parse_info(text: &[u8], old_position: Option<Coords>) -> (r: (Vec<u8>, Option<Coords>))
    ensures
        r.0@ == floor_in_text(text@),
        r.1 == match position_in_text(text@) {
            Some(c) => Some(c),
            None => old_position,
        },
{
    let ghost s = text@;
    assert(s.subrange(0, s.len() as int) =~= s);
    let mut floor: Vec<u8> = Vec::new();
    match find_byte_from(text, 32, 0) {
        Some(p) => {
            proof {
                let k = choose|k: int| first_byte_at(s, 32, k);
                lemma_first_unique(s, 32, k, p as int);
            }
            let mut i: usize = 0;
            while i < p
                invariant
                    0 <= i <= p,
                    p <= s.len(),
                    s == text@,
                    floor@ == s.subrange(0, i as int),
                decreases p - i,
            {
                floor.push(text[i]);
                assert(s.subrange(0, i as int + 1) =~= s.subrange(0, i as int).push(s[i as int]));
                i = i + 1;
            }
        },
        None => {
            assert(floor@ =~= seq![]);
        },
    }
    let position = match find_byte_from(text, 40, 0) {
        None => None,
        Some(p) => {
            proof {
                let k = choose|k: int| first_byte_at(s, 40, k);
                lemma_first_unique(s, 40, k, p as int);
            }
            let n = text.len();
            assert(p < n);
            let ghost rest = s.subrange(p + 1, s.len() as int);
            let comma = find_byte_from(text, 44, p + 1);
            let close = find_byte_from(text, 41, p + 1);
            match (comma, close) {
                (Some(q), Some(e)) => {
                    proof {
                        let k1 = choose|k: int| first_byte_at(rest, 44, k);
                        lemma_first_unique(rest, 44, k1, q - (p + 1));
                        let k2 = choose|k: int| first_byte_at(rest, 41, k);
                        lemma_first_unique(rest, 41, k2, e - (p + 1));
                    }
                    assert(q < n);
                    if e < q + 1 {
                        None
                    } else {
                        assert(rest.subrange(0, q - (p + 1)) =~= s.subrange(p + 1, q as int));
                        assert(rest.subrange(q - (p + 1) + 1, e - (p + 1)) =~= s.subrange(q + 1, e as int));
                        match (parse_u32(text, p + 1, q), parse_u32(text, q + 1, e)) {
                            (Some(x), Some(y)) => Some(Coords { x, y }),
                            _ => None,
                        }
                    }
                },
                _ => None,
            }
        },
    };
    let r = match position {
        Some(c) => Some(c),
        None => old_position,
    };
    (floor, r)
}


/// The word that the party panel shows beside a dead member.
pub open spec fn dead_word() -> Seq<u8> {
    seq![100u8, 101u8, 97u8, 100u8]
}

/// Whether the text holds the word "dead".
pub open spec fn mentions_dead(s: Seq<u8>) -> bool {
    exists|i: int| 0 <= i && i + 4 <= s.len() && #[trigger] s.subrange(i, i + 4) == dead_word()
}

/// Whether a text read from the party panel reports a dead member.
pub fn text_mentions_dead(text: &[u8]) -> (r: bool)
    ensures
        r == mentions_dead(text@),
{
    let n = text.len();
    if n < 4 {
        return false;
    }
    let mut i: usize = 0;
    while i <= n - 4
        invariant
            n == text@.len(),
            n >= 4,
            i <= n - 3,
            n <= usize::MAX,
            forall|j: int| 0 <= j < i ==> #[trigger] text@.subrange(j, j + 4) != dead_word(),
        decreases n - i,
    {
        if text[i] == 100 && text[i + 1] == 101 && text[i + 2] == 97 && text[i + 3] == 100 {
            assert(text@.subrange(i as int, i + 4) =~= dead_word());
            return true;
        }
        proof {
            if text@.subrange(i as int, i + 4) == dead_word() {
                assert(text@.subrange(i as int, i + 4)[0] == text@[i as int]);
                assert(text@.subrange(i as int, i + 4)[1] == text@[i + 1]);
                assert(text@.subrange(i as int, i + 4)[2] == text@[i + 2]);
                assert(text@.subrange(i as int, i + 4)[3] == text@[i + 3]);
            }
        }
        i = i + 1;
    }
    proof {
        assert forall|j: int| !(0 <= j && j + 4 <= text@.len() && #[trigger] text@.subrange(j, j + 4) == dead_word()) by {
            if 0 <= j && j + 4 <= text@.len() {
                assert(j < i);
            }
        }
    }
    false
}

} // verus!
