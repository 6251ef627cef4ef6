//! The names of the functions a binary module exports, read from its export
//! section.

use vstd::prelude::*;

verus! {

/// The unsigned LEB128 number at `pos`, of at most `5 - count` bytes and at
/// most `u32::MAX`, with the position after it.
pub open spec fn read_leb(b: Seq<u8>, pos: int, count: nat) -> Option<(nat, int)>
    decreases 5 - count,
{
    if count >= 5 || pos < 0 || pos >= b.len() {
        None
    } else if b[pos] < 128 {
        Some((b[pos] as nat, pos + 1))
    } else {
        match read_leb(b, pos + 1, count + 1) {
            Some((v, next)) => {
                let value = (b[pos] - 128) as nat + 128 * v;
                if value <= 0xffff_ffff {
                    Some((value, next))
                } else {
                    None
                }
            },
            None => None,
        }
    }
}

/// A byte that may stand in a listed name: an ASCII letter or digit, `_` or `$`.
pub open spec fn plain_byte(x: u8) -> bool {
    (0x30 <= x <= 0x39) || (0x41 <= x <= 0x5a) || (0x61 <= x <= 0x7a) || x == 0x5f || x == 0x24
}

/// A non-empty name made of plain bytes only.
pub open spec fn plain_name(n: Seq<u8>) -> bool {
    n.len() > 0 && forall|i: int| 0 <= i < n.len() ==> plain_byte(#[trigger] n[i])
}

/// The plain names of the exported functions among `remaining` export entries
/// starting at `pos` in a section ending at `end`; reading stops at the first
/// malformed entry.
pub open spec fn entry_names(b: Seq<u8>, pos: int, end: int, remaining: nat) -> Seq<Seq<u8>>
    decreases remaining,
{
    if remaining == 0 {
        Seq::empty()
    } else {
        match read_leb(b, pos, 0) {
            None => Seq::empty(),
            Some((len, start)) => {
                let name_end = start + len;
                if name_end >= end {
                    Seq::empty()
                } else {
                    match read_leb(b, name_end + 1, 0) {
                        None => Seq::empty(),
                        Some((_index, next)) => {
                            if next > end {
                                Seq::empty()
                            } else {
                                let name = b.subrange(start, name_end);
                                let rest = entry_names(b, next, end, (remaining - 1) as nat);
                                if b[name_end] == 0 && plain_name(name) {
                                    seq![name] + rest
                                } else {
                                    rest
                                }
                            }
                        },
                    }
                }
            },
        }
    }
}

/// The plain names of the exported functions in the sections from `pos` on:
/// those of the first export section; reading stops at a malformed section.
pub open spec fn section_names(b: Seq<u8>, pos: int) -> Seq<Seq<u8>>
    decreases b.len() - pos,
{
    if pos < 0 || pos >= b.len() {
        Seq::empty()
    } else {
        match read_leb(b, pos + 1, 0) {
            None => Seq::empty(),
            Some((size, start)) => {
                let end = start + size;
                if end > b.len() || end <= pos {
                    Seq::empty()
                } else if b[pos] == 7 {
                    match read_leb(b, start, 0) {
                        None => Seq::empty(),
                        Some((count, first)) => entry_names(b, first, end, count),
                    }
                } else {
                    section_names(b, end)
                }
            },
        }
    }
}

/// The plain names of the functions a binary module exports, in the order of
/// its export section; the sections start after the eight-byte header.
pub open spec fn export_names(b: Seq<u8>) -> Seq<Seq<u8>> {
    if b.len() < 8 {
        Seq::empty()
    } else {
        section_names(b, 8)
    }
}

/// The views of `names`.
pub open spec fn name_views(names: Seq<Vec<u8>>) -> Seq<Seq<u8>> {
    names.map_values(|n: Vec<u8>| n@)
}

/// Reads the LEB128 number at `pos`.
fn leb_at(b: &[u8], pos: usize, count: usize) -> (r: Option<(u64, usize)>)
    requires
        count <= 5,
    ensures
        match read_leb(b@, pos as int, count as nat) {
            Some((v, next)) => r == Some((v as u64, next as usize)) && v <= 0xffff_ffff && pos
                < next <= b@.len(),
            None => r is None,
        },
    decreases 5 - count,
{
    if count >= 5 || pos >= b.len() {
        return None;
    }
    let byte = b[pos];
    if byte < 128 {
        return Some((byte as u64, pos + 1));
    }
    match leb_at(b, pos + 1, count + 1) {
        Some((v, next)) => {
            let value = (byte - 128) as u64 + 128 * v;
            if value <= 0xffff_ffff {
                Some((value, next))
            } else {
                None
            }
        },
        None => None,
    }
}

/// Whether every byte of `b[start..end]` is plain and the range is not empty.
fn is_plain_name(b: &[u8], start: usize, end: usize) -> (r: bool)
    requires
        start <= end <= b@.len(),
    ensures
        r == plain_name(b@.subrange(start as int, end as int)),
{
    if start == end {
        return false;
    }
    let mut i = start;
    while i < end
        invariant
            start <= i <= end <= b@.len(),
            forall|j: int| start <= j < i ==> plain_byte(#[trigger] b@[j]),
        decreases end - i,
    {
        let x = b[i];
        if !((0x30 <= x && x <= 0x39) || (0x41 <= x && x <= 0x5a) || (0x61 <= x && x <= 0x7a)
            || x == 0x5f || x == 0x24) {
            assert(b@.subrange(start as int, end as int)[i - start] == x);
            return false;
        }
        i = i + 1;
    }
    assert forall|j: int| 0 <= j < end - start implies plain_byte(
        #[trigger] b@.subrange(start as int, end as int)[j],
    ) by {
        assert(b@.subrange(start as int, end as int)[j] == b@[start + j]);
    }
    true
}

/// Reads the export entries of a section ending at `end`.
fn read_entries(b: &[u8], first: usize, end: usize, count: u64) -> (r: Vec<Vec<u8>>)
    requires
        end <= b@.len(),
    ensures
        name_views(r@) == entry_names(b@, first as int, end as int, count as nat),
{
    let mut names: Vec<Vec<u8>> = Vec::new();
    let mut pos = first;
    let mut remaining = count;
    while remaining > 0
        invariant
            end <= b@.len(),
            name_views(names@) + entry_names(b@, pos as int, end as int, remaining as nat)
                == entry_names(b@, first as int, end as int, count as nat),
        decreases remaining,
    {
        let ghost before = names@;
        let (len, start) = match leb_at(b, pos, 0) {
            Some(p) => p,
            None => {
                assert(name_views(names@) =~= name_views(names@) + Seq::<Seq<u8>>::empty());
                return names;
            },
        };
        if len >= (end as u64) || start >= end - (len as usize) {
            assert(name_views(names@) =~= name_views(names@) + Seq::<Seq<u8>>::empty());
            return names;
        }
        let name_end = start + len as usize;
        let next = match leb_at(b, name_end + 1, 0) {
            Some((_index, next)) => next,
            None => {
                assert(name_views(names@) =~= name_views(names@) + Seq::<Seq<u8>>::empty());
                return names;
            },
        };
        if next > end {
            assert(name_views(names@) =~= name_views(names@) + Seq::<Seq<u8>>::empty());
            return names;
        }
        if b[name_end] == 0 && is_plain_name(b, start, name_end) {
            let name = vstd::slice::slice_to_vec(&b[start..name_end]);
            assert(name@ =~= b@.subrange(start as int, name_end as int));
            names.push(name);
            assert(name_views(names@) =~= name_views(before).push(name@));
            assert(seq![name@] + entry_names(b@, next as int, end as int, (remaining - 1) as nat)
                =~= seq![name@].add(entry_names(b@, next as int, end as int, (remaining - 1) as nat)));
            assert(name_views(names@) + entry_names(b@, next as int, end as int, (remaining - 1) as nat)
                =~= name_views(before) + (seq![name@] + entry_names(b@, next as int, end as int, (remaining - 1) as nat)));
        }
        pos = next;
        remaining = remaining - 1;
    }
    assert(name_views(names@) =~= name_views(names@) + Seq::<Seq<u8>>::empty());
    names
}

/// Reads the plain names of the functions the binary module `b` exports.
pub fn exported_function_names(b: &[u8]) -> (r: Vec<Vec<u8>>)
    ensures
        name_views(r@) == export_names(b@),
{
    if b.len() < 8 {
        let empty: Vec<Vec<u8>> = Vec::new();
        assert(name_views(empty@) =~= Seq::<Seq<u8>>::empty());
        return empty;
    }
    let mut pos: usize = 8;
    loop
        invariant
            8 <= pos,
            section_names(b@, pos as int) == export_names(b@),
        decreases b@.len() - pos,
    {
        let empty: Vec<Vec<u8>> = Vec::new();
        assert(name_views(empty@) =~= Seq::<Seq<u8>>::empty());
        if pos >= b.len() {
            return empty;
        }
        let (size, start) = match leb_at(b, pos + 1, 0) {
            Some(p) => p,
            None => {
                return empty;
            },
        };
        if size > (b.len() - start) as u64 {
            return empty;
        }
        let end = start + size as usize;
        if b[pos] == 7 {
            return match leb_at(b, start, 0) {
                Some((count, first)) => read_entries(b, first, end, count),
                None => empty,
            };
        }
        pos = end;
    }
}

} // verus!
