//! What holds of every listing, whatever the kernel hands over.

use vstd::prelude::*;
use crate::record::{
    declared_len,
    framed_len,
    is_pseudo,
    is_vacant,
    parse_fill,
    prepend,
    record_name,
    record_names,
    HEADER_LEN,
    RECLEN_AT,
};
use crate::text::{until_nul, utf8_text};

verus! {

/// `rec` is one well-framed record: its header fits and its declared length
/// is exactly its size.
pub open spec fn is_record(rec: Seq<u8>) -> bool {
    rec.len() >= HEADER_LEN && declared_len(rec) == rec.len()
}

/// The byte stream that a sequence of fills delivers, in order.
pub open spec fn concat_fills(fills: Seq<Seq<u8>>) -> Seq<u8>
    decreases fills.len(),
{
    if fills.len() == 0 {
        Seq::empty()
    } else {
        fills[0] + concat_fills(fills.drop_first())
    }
}

/// The listing that a sequence of fills gives when each is parsed on its own
/// and the names are gathered in order, as `Enumeration::on_fill` does.
pub open spec fn parse_fills(fills: Seq<Seq<u8>>) -> Option<Seq<Seq<char>>>
    decreases fills.len(),
{
    if fills.len() == 0 {
        Some(Seq::empty())
    } else {
        match parse_fill(fills[0]) {
            Some(first) => prepend(first, parse_fills(fills.drop_first())),
            None => None,
        }
    }
}

/// A well-framed record followed by any bytes lists the record's names and
/// then whatever those bytes list.
pub proof fn lemma_record_then(rec: Seq<u8>, rest: Seq<u8>)
    requires
        is_record(rec),
    ensures
        parse_fill(rec + rest) == prepend(record_names(rec), parse_fill(rest)),
{
    let b = rec + rest;
    assert(b[RECLEN_AT as int] == rec[RECLEN_AT as int]);
    assert(b[RECLEN_AT as int + 1] == rec[RECLEN_AT as int + 1]);
    assert(framed_len(b) == Some(rec.len() as int));
    assert(b.subrange(0, rec.len() as int) =~= rec);
    assert(b.subrange(rec.len() as int, b.len() as int) =~= rest);
}

/// Splitting a record stream after any whole record does not change what it
/// lists: the names of the first part come first, then those of the second.
pub proof fn lemma_fill_concat(a: Seq<u8>, b: Seq<u8>)
    requires
        parse_fill(a) is Some,
    ensures
        parse_fill(a + b) == prepend(parse_fill(a)->0, parse_fill(b)),
    decreases a.len(),
{
    if a.len() == 0 {
        assert(a + b =~= b);
        match parse_fill(b) {
            Some(r) => assert(Seq::<Seq<char>>::empty() + r =~= r),
            None => {},
        }
    } else {
        let len = framed_len(a)->0;
        let rec = a.subrange(0, len);
        let tail = a.subrange(len, a.len() as int);
        assert(rec[RECLEN_AT as int] == a[RECLEN_AT as int]);
        assert(rec[RECLEN_AT as int + 1] == a[RECLEN_AT as int + 1]);
        assert(a + b =~= rec + (tail + b));
        lemma_record_then(rec, tail + b);
        lemma_fill_concat(tail, b);
        match parse_fill(b) {
            Some(r) => {
                let h = record_names(rec);
                let t = parse_fill(tail)->0;
                assert(h + (t + r) =~= (h + t) + r);
            },
            None => {},
        }
    }
}

/// The listing does not depend on how the kernel cuts the record stream into
/// fills: gathering the names fill by fill gives what parsing the whole stream
/// at once gives, for every buffer size that holds at least one record.
pub proof fn lemma_listing_independent_of_fills(fills: Seq<Seq<u8>>)
    requires
        parse_fills(fills) is Some,
    ensures
        parse_fill(concat_fills(fills)) == parse_fills(fills),
    decreases fills.len(),
{
    if fills.len() > 0 {
        lemma_listing_independent_of_fills(fills.drop_first());
        lemma_fill_concat(fills[0], concat_fills(fills.drop_first()));
    }
}

/// No listing holds the self or parent pseudo-entry.
pub proof fn lemma_no_pseudo_entries(bytes: Seq<u8>)
    requires
        parse_fill(bytes) is Some,
    ensures
        forall|i: int|
            0 <= i < parse_fill(bytes)->0.len() ==> !is_pseudo(#[trigger] parse_fill(bytes)->0[i]),
    decreases bytes.len(),
{
    if bytes.len() > 0 {
        let len = framed_len(bytes)->0;
        let tail = bytes.subrange(len, bytes.len() as int);
        lemma_no_pseudo_entries(tail);
        let h = record_names(bytes.subrange(0, len));
        let t = parse_fill(tail)->0;
        assert(parse_fill(bytes)->0 == h + t);
        assert forall|i: int| 0 <= i < h.len() + t.len() implies !is_pseudo(#[trigger] (h + t)[i]) by {
            if i >= h.len() {
                assert((h + t)[i] == t[i - h.len()]);
            }
        }
    }
}

/// A live record whose name is not valid UTF-8 does not stop the listing: it
/// is listed as the empty name, and the records after it are listed as usual.
pub proof fn lemma_undecodable_name_listed_empty(rec: Seq<u8>, rest: Seq<u8>)
    requires
        is_record(rec),
        !is_vacant(rec),
        utf8_text(until_nul(rec.subrange(HEADER_LEN as int, rec.len() as int))) is None,
        parse_fill(rest) is Some,
    ensures
        parse_fill(rec + rest) == Some(seq![Seq::<char>::empty()] + parse_fill(rest)->0),
{
    lemma_record_then(rec, rest);
    assert(record_name(rec) =~= Seq::<char>::empty());
    assert(!is_pseudo(Seq::<char>::empty())) by {
        assert(seq!['.'].len() == 1);
    }
}

/// A fill that holds only the directory's self and parent entries lists
/// nothing: an empty directory has an empty listing.
pub proof fn lemma_pseudo_entries_only_list_nothing(dot: Seq<u8>, dotdot: Seq<u8>)
    requires
        is_record(dot),
        is_record(dotdot),
        record_name(dot) == seq!['.'],
        record_name(dotdot) == seq!['.', '.'],
    ensures
        parse_fill(dot + dotdot) == Some(Seq::<Seq<char>>::empty()),
{
    lemma_record_then(dot, dotdot);
    lemma_record_then(dotdot, Seq::empty());
    assert(dotdot + Seq::<u8>::empty() =~= dotdot);
    assert(Seq::<Seq<char>>::empty() + Seq::<Seq<char>>::empty() =~= Seq::<Seq<char>>::empty());
}

} // verus!
