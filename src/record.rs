//! The records of one buffer fill.
//!
//! A fill is a flat run of `linux_dirent64` records, each laid out as
//! `d_ino: u64`, `d_off: i64`, `d_reclen: u16`, `d_type: u8`, then the
//! NUL-terminated name, with integers little-endian as on the x86-64 and
//! AArch64 targets. `d_reclen` is the size of the whole record and leads
//! to the next one. The parser never trusts it: a record whose header does
//! not fit, whose length is shorter than its header (zero included) or whose
//! length runs past the bytes that were filled is a fault, not a read.

use vstd::prelude::*;
use crate::text::{extract_name, field_name};

verus! {

/// Bytes before the name: identifier, offset, record length and type.
pub const HEADER_LEN: usize = 19;

/// Where the record length stands within a record.
pub const RECLEN_AT: usize = 16;

/// Width of the identifier (the inode number) at the start of a record.
pub const IDENT_LEN: usize = 8;

/// The record length declared by the record that starts `bytes`.
pub open spec fn declared_len(bytes: Seq<u8>) -> int {
    bytes[RECLEN_AT as int] as int + 256 * bytes[RECLEN_AT as int + 1] as int
}

/// The record that starts `bytes` marks an empty or deleted slot: its
/// identifier is zero.
pub open spec fn is_vacant(bytes: Seq<u8>) -> bool {
    forall|i: int| 0 <= i < IDENT_LEN ==> #[trigger] bytes[i] == 0
}

/// The self and parent pseudo-entries.
pub open spec fn is_pseudo(name: Seq<char>) -> bool {
    name == seq!['.'] || name == seq!['.', '.']
}

/// The name of the single record `rec`.
pub open spec fn record_name(rec: Seq<u8>) -> Seq<char> {
    field_name(rec.subrange(HEADER_LEN as int, rec.len() as int))
}

/// What the single record `rec` adds to a listing: its name, unless it is a
/// vacant slot or a pseudo-entry.
pub open spec fn record_names(rec: Seq<u8>) -> Seq<Seq<char>> {
    if is_vacant(rec) || is_pseudo(record_name(rec)) {
        Seq::empty()
    } else {
        seq![record_name(rec)]
    }
}

/// The length of the record that starts `bytes`, where that record is well
/// framed within them.
pub open spec fn framed_len(bytes: Seq<u8>) -> Option<int> {
    if bytes.len() < HEADER_LEN {
        None
    } else if declared_len(bytes) < HEADER_LEN || declared_len(bytes) > bytes.len() {
        None
    } else {
        Some(declared_len(bytes))
    }
}

/// `names` put in front of a parse outcome.
pub open spec fn prepend(names: Seq<Seq<char>>, rest: Option<Seq<Seq<char>>>) -> Option<
    Seq<Seq<char>>,
> {
    match rest {
        Some(r) => Some(names + r),
        None => None,
    }
}

/// The names that the records of `bytes` list, in order, or `None` where the
/// records are not well framed.
pub open spec fn parse_fill(bytes: Seq<u8>) -> Option<Seq<Seq<char>>>
    decreases bytes.len(),
{
    if bytes.len() == 0 {
        Some(Seq::empty())
    } else {
        match framed_len(bytes) {
            Some(len) => prepend(
                record_names(bytes.subrange(0, len)),
                parse_fill(bytes.subrange(len, bytes.len() as int)),
            ),
            None => None,
        }
    }
}

/// The record length declared by the record at `pos`.
fn read_reclen(buf: &[u8], pos: usize) -> (r: usize)
    requires
        pos + HEADER_LEN <= buf@.len(),
    ensures
        r == declared_len(buf@.subrange(pos as int, buf@.len() as int)),
{
    let n = buf.len();
    assert(pos + RECLEN_AT + 1 < n);
    buf[pos + RECLEN_AT] as usize + 256 * (buf[pos + RECLEN_AT + 1] as usize)
}

/// Whether the record at `pos` is an empty or deleted slot.
fn vacant_at(buf: &[u8], pos: usize) -> (r: bool)
    requires
        pos + HEADER_LEN <= buf@.len(),
    ensures
        r == is_vacant(buf@.subrange(pos as int, buf@.len() as int)),
{
    let ghost rest = buf@.subrange(pos as int, buf@.len() as int);
    let n = buf.len();
    let mut i: usize = 0;
    while i < IDENT_LEN
        invariant
            i <= IDENT_LEN,
            pos + HEADER_LEN <= buf@.len(),
            n == buf@.len(),
            rest == buf@.subrange(pos as int, buf@.len() as int),
            forall|j: int| 0 <= j < i ==> #[trigger] rest[j] == 0,
        decreases IDENT_LEN - i,
    {
        if buf[pos + i] != 0 {
            assert(rest[i as int] != 0);
            return false;
        }
        i = i + 1;
    }
    true
}

/// Whether `name` is the self or parent pseudo-entry.
pub fn is_pseudo_name(name: &String) -> (r: bool)
    ensures
        r == is_pseudo(name@),
{
    let s = name.as_str();
    let n = s.unicode_len();
    if n == 1 {
        let c = s.get_char(0);
        if c == '.' {
            assert(name@ =~= seq!['.']);
        }
        c == '.'
    } else if n == 2 {
        let c0 = s.get_char(0);
        let c1 = s.get_char(1);
        if c0 == '.' && c1 == '.' {
            assert(name@ =~= seq!['.', '.']);
        }
        c0 == '.' && c1 == '.'
    } else {
        false
    }
}

/// Parses the first `count` bytes of `buf`, one fill, into the names its
/// records list in order: vacant slots and the pseudo-entries are skipped,
/// undecodable names are listed as empty. Returns `None` exactly where the
/// records are not well framed within those bytes.
pub fn parse_records(buf: &[u8], count: usize) -> (r: Option<Vec<String>>)
    requires
        count <= buf@.len(),
    ensures
        match r {
            Some(v) => parse_fill(buf@.subrange(0, count as int)) == Some(v.deep_view()),
            None => parse_fill(buf@.subrange(0, count as int)) is None,
        },
{
    let ghost fill = buf@.subrange(0, count as int);
    let mut names: Vec<String> = Vec::new();
    let mut pos: usize = 0;
    assert(fill.subrange(0, count as int) =~= fill);
    while pos < count
        invariant
            pos <= count <= buf@.len(),
            fill == buf@.subrange(0, count as int),
            parse_fill(fill) == prepend(
                names.deep_view(),
                parse_fill(fill.subrange(pos as int, count as int)),
            ),
        decreases count - pos,
    {
        let ghost rest = fill.subrange(pos as int, count as int);
        if count - pos < HEADER_LEN {
            return None;
        }
        let len = read_reclen(buf, pos);
        assert(declared_len(rest) == declared_len(buf@.subrange(pos as int, buf@.len() as int)));
        if len < HEADER_LEN || len > count - pos {
            return None;
        }
        let end = pos + len;
        let ghost rec = rest.subrange(0, len as int);
        assert(rec =~= buf@.subrange(pos as int, end as int));
        assert(rest.subrange(len as int, rest.len() as int) =~= fill.subrange(
            end as int,
            count as int,
        ));
        let ghost before = names.deep_view();
        let vacant = vacant_at(buf, pos);
        assert(vacant == is_vacant(rec)) by {
            let tail = buf@.subrange(pos as int, buf@.len() as int);
            assert(forall|i: int| 0 <= i < IDENT_LEN ==> tail[i] == rec[i]);
        }
        if !vacant {
            let name = extract_name(buf, pos + HEADER_LEN, end);
            assert(rec.subrange(HEADER_LEN as int, rec.len() as int) =~= buf@.subrange(
                pos + HEADER_LEN,
                end as int,
            ));
            if !is_pseudo_name(&name) {
                names.push(name);
                assert(names.deep_view() =~= before + record_names(rec));
            } else {
                assert(before + record_names(rec) =~= before);
            }
        } else {
            assert(before + record_names(rec) =~= before);
        }
        proof {
            let next = parse_fill(fill.subrange(end as int, count as int));
            match next {
                Some(n) => {
                    assert(before + (record_names(rec) + n) =~= (before + record_names(rec))
                        + n);
                },
                None => {},
            }
        }
        pos = end;
    }
    assert(names.deep_view() + Seq::<Seq<char>>::empty() =~= names.deep_view());
    Some(names)
}

} // verus!
