use vstd::prelude::*;

use crate::registry::{type_of_code, PlanetType};

verus! {

/// A line of a topology file that could not be read; lines count from 1.
#[derive(Clone, Copy, Debug, PartialEq, Eq, Structural)]
pub struct ParseError {
    pub line: usize,
}

/// One node of a topology file: its id, its type if the code was recognised,
/// and its neighbours' ids.
#[derive(Clone, Debug, PartialEq, Eq)]
pub struct ParsedLine {
    pub id: u32,
    pub kind: Option<PlanetType>,
    pub neighbors: Vec<u32>,
}

pub open spec fn is_blank(b: u8) -> bool {
    b == 32u8 || b == 9u8 || b == 13u8
}

pub open spec fn is_digit(b: u8) -> bool {
    48u8 <= b && b <= 57u8
}

/// `s` cut at each `sep`: one more piece than there are separators.
pub open spec fn pieces(s: Seq<u8>, sep: u8) -> Seq<Seq<u8>>
    decreases s.len(),
{
    if s.len() == 0 {
        seq![Seq::<u8>::empty()]
    } else {
        let rest = pieces(s.drop_last(), sep);
        if s.last() == sep {
            rest.push(Seq::<u8>::empty())
        } else {
            rest.update(rest.len() - 1, rest.last().push(s.last()))
        }
    }
}

pub open spec fn trim_start(s: Seq<u8>) -> Seq<u8>
    decreases s.len(),
{
    if s.len() > 0 && is_blank(s[0]) {
        trim_start(s.drop_first())
    } else {
        s
    }
}

pub open spec fn trim_end(s: Seq<u8>) -> Seq<u8>
    decreases s.len(),
{
    if s.len() > 0 && is_blank(s.last()) {
        trim_end(s.drop_last())
    } else {
        s
    }
}

/// `s` without leading and trailing spaces, tabs and carriage returns.
pub open spec fn trim(s: Seq<u8>) -> Seq<u8> {
    trim_end(trim_start(s))
}

pub open spec fn all_digits(s: Seq<u8>) -> bool {
    forall|i: int| 0 <= i < s.len() ==> is_digit(#[trigger] s[i])
}

/// The value of a string of decimal digits.
pub open spec fn digits_value(s: Seq<u8>) -> nat
    decreases s.len(),
{
    if s.len() == 0 {
        0
    } else {
        digits_value(s.drop_last()) * 10 + (s.last() - 48u8) as nat
    }
}

/// A decimal number that fits 32 bits, or `None`.
pub open spec fn number_of(s: Seq<u8>) -> Option<u32> {
    if s.len() > 0 && all_digits(s) && digits_value(s) <= u32::MAX {
        Some(digits_value(s) as u32)
    } else {
        None
    }
}

/// The numbers of all fields, or `None` if one is not a number.
pub open spec fn numbers_of(fs: Seq<Seq<u8>>) -> Option<Seq<u32>>
    decreases fs.len(),
{
    if fs.len() == 0 {
        Some(Seq::<u32>::empty())
    } else {
        match (numbers_of(fs.drop_last()), number_of(fs.last())) {
            (Some(v), Some(x)) => Some(v.push(x)),
            _ => None,
        }
    }
}

/// The comma-separated fields of a line, each trimmed.
pub open spec fn trimmed_fields(l: Seq<u8>) -> Seq<Seq<u8>> {
    pieces(l, 44u8).map_values(|f: Seq<u8>| trim(f))
}

/// A non-blank line `id, type_code, neighbour*`: `None` when the id or a
/// neighbour is not a number or the type field is missing. A type code that
/// names no type gives no type.
pub open spec fn line_of(l: Seq<u8>) -> Option<(u32, Option<PlanetType>, Seq<u32>)> {
    let fs = trimmed_fields(l);
    if fs.len() < 2 {
        None
    } else {
        match (number_of(fs[0]), numbers_of(fs.skip(2))) {
            (Some(id), Some(nb)) => Some(
                (
                    id,
                    match number_of(fs[1]) {
                        Some(c) => type_of_code(c as int),
                        None => None,
                    },
                    nb,
                ),
            ),
            _ => None,
        }
    }
}

/// The nodes of the lines `ls`, blank lines skipped, or the number of the
/// first line that is malformed.
pub open spec fn lines_of(ls: Seq<Seq<u8>>) -> Result<Seq<(u32, Option<PlanetType>, Seq<u32>)>, nat>
    decreases ls.len(),
{
    if ls.len() == 0 {
        Ok(Seq::empty())
    } else {
        match lines_of(ls.drop_last()) {
            Err(e) => Err(e),
            Ok(acc) => if trim(ls.last()).len() == 0 {
                Ok(acc)
            } else {
                match line_of(ls.last()) {
                    Some(p) => Ok(acc.push(p)),
                    None => Err(ls.len()),
                }
            },
        }
    }
}

/// What a topology file describes.
pub open spec fn topology_file_of(text: Seq<u8>) -> Result<
    Seq<(u32, Option<PlanetType>, Seq<u32>)>,
    nat,
> {
    lines_of(pieces(text, 10u8))
}

pub open spec fn parsed_view(p: ParsedLine) -> (u32, Option<PlanetType>, Seq<u32>) {
    (p.id, p.kind, p.neighbors@)
}

pub open spec fn vecs_view(v: Seq<Vec<u8>>) -> Seq<Seq<u8>> {
    v.map_values(|x: Vec<u8>| x@)
}

proof fn lemma_pieces_nonempty(s: Seq<u8>, sep: u8)
    ensures
        pieces(s, sep).len() >= 1,
    decreases s.len(),
{
    if s.len() > 0 {
        lemma_pieces_nonempty(s.drop_last(), sep);
    }
}

/// Cuts `s` at each `sep`.
pub fn split_bytes(s: &[u8], sep: u8) -> (r: Vec<Vec<u8>>)
    ensures
        vecs_view(r@) == pieces(s@, sep),
{
    let mut done: Vec<Vec<u8>> = Vec::new();
    let mut cur: Vec<u8> = Vec::new();
    let mut i: usize = 0;
    assert(s@.take(0) =~= Seq::<u8>::empty());
    assert(vecs_view(done@).push(cur@) =~= pieces(s@.take(0), sep));
    while i < s.len()
        invariant
            0 <= i <= s@.len(),
            vecs_view(done@).push(cur@) == pieces(s@.take(i as int), sep),
        decreases s@.len() - i,
    {
        let ghost t1 = s@.take(i as int + 1);
        assert(t1.drop_last() =~= s@.take(i as int));
        assert(t1.last() == s@[i as int]);
        proof {
            lemma_pieces_nonempty(s@.take(i as int), sep);
        }
        let b = s[i];
        if b == sep {
            done.push(cur);
            cur = Vec::new();
            assert(vecs_view(done@).push(cur@) =~= pieces(t1, sep));
        } else {
            cur.push(b);
            assert(vecs_view(done@).push(cur@) =~= pieces(t1, sep));
        }
        i += 1;
    }
    assert(s@.take(s@.len() as int) =~= s@);
    done.push(cur);
    assert(vecs_view(done@) =~= pieces(s@, sep));
    done
}

/// `s` without leading and trailing blanks.
pub fn trim_bytes(s: &[u8]) -> (r: Vec<u8>)
    ensures
        r@ == trim(s@),
{
    let n = s.len();
    let mut lo: usize = 0;
    assert(s@.skip(0) =~= s@);
    while lo < n && (s[lo] == 32u8 || s[lo] == 9u8 || s[lo] == 13u8)
        invariant
            0 <= lo <= n,
            n == s@.len(),
            trim_start(s@) == trim_start(s@.skip(lo as int)),
        decreases n - lo,
    {
        assert(s@.skip(lo as int).drop_first() =~= s@.skip(lo as int + 1));
        lo += 1;
    }
    let ghost t = s@.skip(lo as int);
    assert(trim_start(s@) == t);
    let mut hi: usize = n;
    while hi > lo && (s[hi - 1] == 32u8 || s[hi - 1] == 9u8 || s[hi - 1] == 13u8)
        invariant
            lo <= hi <= n,
            n == s@.len(),
            t == s@.skip(lo as int),
            trim_end(t) == trim_end(s@.subrange(lo as int, hi as int)),
        decreases hi - lo,
    {
        assert(s@.subrange(lo as int, hi as int).drop_last() =~= s@.subrange(lo as int, hi as int - 1));
        hi -= 1;
    }
    assert(t =~= s@.subrange(lo as int, n as int));
    let mut out: Vec<u8> = Vec::new();
    let mut k: usize = lo;
    while k < hi
        invariant
            lo <= k <= hi,
            hi <= n,
            n == s@.len(),
            out@ == s@.subrange(lo as int, k as int),
        decreases hi - k,
    {
        out.push(s[k]);
        assert(out@ =~= s@.subrange(lo as int, k as int + 1));
        k += 1;
    }
    out
}

proof fn lemma_digits_prefix_le(s: Seq<u8>, k: int)
    requires
        0 <= k <= s.len(),
        all_digits(s),
    ensures
        digits_value(s.take(k)) <= digits_value(s),
    decreases s.len(),
{
    if k < s.len() {
        assert(all_digits(s.drop_last()));
        lemma_digits_prefix_le(s.drop_last(), k);
        assert(s.drop_last().take(k) =~= s.take(k));
    } else {
        assert(s.take(k) =~= s);
    }
}

/// The decimal number `s` if it fits 32 bits.
pub fn parse_u32(s: &[u8]) -> (r: Option<u32>)
    ensures
        r == number_of(s@),
{
    let n = s.len();
    if n == 0 {
        return None;
    }
    let mut val: u64 = 0;
    let mut i: usize = 0;
    assert(s@.take(0) =~= Seq::<u8>::empty());
    while i < n
        invariant
            0 <= i <= n,
            n == s@.len(),
            n > 0,
            all_digits(s@.take(i as int)),
            val == digits_value(s@.take(i as int)),
            val <= u32::MAX,
        decreases n - i,
    {
        let b = s[i];
        let ghost t1 = s@.take(i as int + 1);
        assert(t1.drop_last() =~= s@.take(i as int));
        if b < 48u8 || b > 57u8 {
            assert(!all_digits(s@)) by {
                assert(s@[i as int] == b);
            }
            return None;
        }
        let next = val * 10 + (b - 48u8) as u64;
        assert(next == digits_value(t1));
        assert(all_digits(t1)) by {
            assert forall|j: int| 0 <= j < t1.len() implies is_digit(#[trigger] t1[j]) by {
                if j < i {
                    assert(t1[j] == s@.take(i as int)[j]);
                }
            }
        }
        if next > 4294967295u64 {
            proof {
                if all_digits(s@) {
                    lemma_digits_prefix_le(s@, i as int + 1);
                }
            }
            return None;
        }
        val = next;
        i += 1;
    }
    assert(s@.take(n as int) =~= s@);
    Some(val as u32)
}

proof fn lemma_lines_err_prefix(ls: Seq<Seq<u8>>, k: int, e: nat)
    requires
        0 <= k <= ls.len(),
        lines_of(ls.take(k)) == Err::<Seq<(u32, Option<PlanetType>, Seq<u32>)>, nat>(e),
    ensures
        lines_of(ls) == Err::<Seq<(u32, Option<PlanetType>, Seq<u32>)>, nat>(e),
    decreases ls.len(),
{
    if k < ls.len() {
        assert(ls.drop_last().take(k) =~= ls.take(k));
        lemma_lines_err_prefix(ls.drop_last(), k, e);
    } else {
        assert(ls.take(k) =~= ls);
    }
}

/// One non-blank line of a topology file.
pub fn parse_line(l: &[u8]) -> (r: Option<ParsedLine>)
    ensures
        match r {
            Some(p) => line_of(l@) == Some(parsed_view(p)),
            None => line_of(l@) is None,
        },
{
    let raw = split_bytes(l, 44u8);
    let ghost fs = trimmed_fields(l@);
    let mut fields: Vec<Vec<u8>> = Vec::new();
    let mut i: usize = 0;
    while i < raw.len()
        invariant
            0 <= i <= raw@.len(),
            vecs_view(raw@) == pieces(l@, 44u8),
            fs == trimmed_fields(l@),
            vecs_view(fields@) == fs.take(i as int),
        decreases raw@.len() - i,
    {
        let t = trim_bytes(raw[i].as_slice());
        proof {
            assert(raw@[i as int]@ == vecs_view(raw@)[i as int]);
            assert(fs[i as int] == trim(pieces(l@, 44u8)[i as int]));
            assert(t@ == fs[i as int]);
        }
        let ghost before = fields@;
        assert(fs.len() == raw@.len());
        assert(vecs_view(before).len() == i);
        assert(before.len() == i);
        fields.push(t);
        assert(fields@.len() == i + 1);
        proof {
            assert forall|j: int| 0 <= j < i + 1 implies #[trigger] vecs_view(fields@)[j] == fs.take(i as int + 1)[j] by {
                if j < i {
                    assert(fields@[j] == before[j]);
                    assert(vecs_view(before)[j] == fs.take(i as int)[j]);
                }
            }
        }
        assert(vecs_view(fields@) =~= fs.take(i as int + 1));
        i += 1;
    }
    assert(vecs_view(fields@) =~= fs);
    if fields.len() < 2 {
        return None;
    }
    assert(fields@[0]@ == fs[0]);
    assert(fields@[1]@ == fs[1]);
    let id = match parse_u32(fields[0].as_slice()) {
        Some(v) => v,
        None => {
            return None;
        },
    };
    let kind = match parse_u32(fields[1].as_slice()) {
        Some(c) => PlanetType::from_code(c),
        None => None,
    };
    let ghost rest = fs.skip(2);
    let mut neighbors: Vec<u32> = Vec::new();
    let mut k: usize = 2;
    assert(rest.take(0) =~= Seq::<Seq<u8>>::empty());
    while k < fields.len()
        invariant
            2 <= k <= fields@.len(),
            vecs_view(fields@) == fs,
            rest == fs.skip(2),
            fs == trimmed_fields(l@),
            fs.len() >= 2,
            number_of(fs[0]) == Some(id),
            kind == match number_of(fs[1]) {
                Some(c) => type_of_code(c as int),
                None => None,
            },
            numbers_of(rest.take(k - 2)) == Some(neighbors@),
        decreases fields@.len() - k,
    {
        let ghost t1 = rest.take(k - 1);
        assert(t1.drop_last() =~= rest.take(k - 2));
        assert(t1.last() == fields@[k as int]@);
        match parse_u32(fields[k].as_slice()) {
            Some(v) => {
                neighbors.push(v);
            },
            None => {
                proof {
                    assert(number_of(t1.last()) is None);
                    assert(numbers_of(t1) is None);
                    lemma_numbers_none_prefix(rest, k - 1);
                    assert(numbers_of(fs.skip(2)) is None);
                }
                return None;
            },
        }
        k += 1;
    }
    assert(rest.take(fields@.len() - 2) =~= rest);
    Some(ParsedLine { id, kind, neighbors })
}

proof fn lemma_numbers_none_prefix(fs: Seq<Seq<u8>>, k: int)
    requires
        0 <= k <= fs.len(),
        numbers_of(fs.take(k)) is None,
    ensures
        numbers_of(fs) is None,
    decreases fs.len(),
{
    if k < fs.len() {
        assert(fs.drop_last().take(k) =~= fs.take(k));
        lemma_numbers_none_prefix(fs.drop_last(), k);
    } else {
        assert(fs.take(k) =~= fs);
    }
}

/// Reads a topology file: one node per line as `id, type_code, neighbour*`,
/// fields separated by commas, blank lines skipped. A malformed line is
/// refused, naming it.
pub fn parse_topology(text: &[u8]) -> (r: Result<Vec<ParsedLine>, ParseError>)
    ensures
        match (r, topology_file_of(text@)) {
            (Ok(v), Ok(d)) => v@.map_values(|p: ParsedLine| parsed_view(p)) == d,
            (Err(e), Err(n)) => e.line == n,
            _ => false,
        },
{
    let lines = split_bytes(text, 10u8);
    let ghost ls = pieces(text@, 10u8);
    let mut out: Vec<ParsedLine> = Vec::new();
    let mut i: usize = 0;
    assert(ls.take(0) =~= Seq::<Seq<u8>>::empty());
    assert(out@.map_values(|p: ParsedLine| parsed_view(p)) =~= Seq::<(u32, Option<PlanetType>, Seq<u32>)>::empty());
    while i < lines.len()
        invariant
            0 <= i <= lines@.len(),
            vecs_view(lines@) == ls,
            ls == pieces(text@, 10u8),
            lines_of(ls.take(i as int)) == Ok::<Seq<(u32, Option<PlanetType>, Seq<u32>)>, nat>(
                out@.map_values(|p: ParsedLine| parsed_view(p)),
            ),
        decreases lines@.len() - i,
    {
        let ghost t1 = ls.take(i as int + 1);
        assert(t1.drop_last() =~= ls.take(i as int));
        assert(t1.last() == lines@[i as int]@);
        let trimmed = trim_bytes(lines[i].as_slice());
        if trimmed.len() > 0 {
            match parse_line(lines[i].as_slice()) {
                Some(p) => {
                    out.push(p);
                    assert(out@.map_values(|p: ParsedLine| parsed_view(p)) =~= lines_of(t1)->Ok_0);
                },
                None => {
                    proof {
                        lemma_lines_err_prefix(ls, i as int + 1, (i + 1) as nat);
                    }
                    return Err(ParseError { line: i + 1 });
                },
            }
        }
        i += 1;
    }
    assert(ls.take(lines@.len() as int) =~= ls);
    Ok(out)
}

} // verus!
