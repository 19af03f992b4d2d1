//! Entry names: the bytes of a record's name field up to its terminating
//! NUL, read as UTF-8 text.

use vstd::prelude::*;

verus! {

/// What `String::from_utf8` makes of a byte sequence: the text it encodes,
/// or `None` where the bytes are not valid UTF-8.
pub uninterp spec fn utf8_text(bytes: Seq<u8>) -> Option<Seq<char>>;

/// Index of the first NUL byte of `field` at or after `i`, or the field's
/// length where there is none.
pub open spec fn nul_index_from(field: Seq<u8>, i: int) -> int
    decreases field.len() - i,
{
    if i < 0 || field.len() <= i {
        field.len() as int
    } else if field[i] == 0 {
        i
    } else {
        nul_index_from(field, i + 1)
    }
}

/// The bytes of a name field before its first NUL (all of them if it has none).
pub open spec fn until_nul(field: Seq<u8>) -> Seq<u8> {
    field.subrange(0, nul_index_from(field, 0))
}

/// A decoded name, with text that is not valid UTF-8 replaced by the empty name.
pub open spec fn text_or_empty(decoded: Option<Seq<char>>) -> Seq<char> {
    match decoded {
        Some(t) => t,
        None => Seq::empty(),
    }
}

/// The name that a name field holds.
pub open spec fn field_name(field: Seq<u8>) -> Seq<char> {
    text_or_empty(utf8_text(until_nul(field)))
}

/// Relies on `String::from_utf8`: it returns `Ok` exactly when the bytes are
/// valid UTF-8, and then a string holding the text they encode.
#[verifier::external_body]
fn decode_utf8(bytes: Vec<u8>) -> (r: Option<String>)
    ensures
        match r {
            Some(s) => utf8_text(bytes@) == Some(s@),
            None => utf8_text(bytes@) is None,
        },
{
    String::from_utf8(bytes).ok()
}

/// The name for a decoding outcome: the decoded text, or the empty name where
/// the bytes were not valid UTF-8.
pub fn name_or_empty(decoded: Option<String>) -> (r: String)
    ensures
        r@ == text_or_empty(match decoded {
            Some(s) => Some(s@),
            None => None,
        }),
{
    match decoded {
        Some(s) => s,
        None => String::new(),
    }
}

/// Reads the name held in `buf[start..end]`: the bytes before the first NUL
/// (or all of them), decoded as UTF-8. Bytes that are not valid UTF-8 give
/// the empty name rather than an error.
pub fn extract_name(buf: &[u8], start: usize, end: usize) -> (r: String)
    requires
        start <= end <= buf@.len(),
    ensures
        r@ == field_name(buf@.subrange(start as int, end as int)),
{
    let ghost field = buf@.subrange(start as int, end as int);
    let mut stop: usize = start;
    while stop < end && buf[stop] != 0
        invariant
            start <= stop <= end <= buf@.len(),
            field == buf@.subrange(start as int, end as int),
            nul_index_from(field, 0) == nul_index_from(field, stop - start),
        decreases end - stop,
    {
        stop = stop + 1;
    }
    let mut bytes: Vec<u8> = Vec::new();
    let mut k: usize = start;
    while k < stop
        invariant
            start <= k <= stop <= buf@.len(),
            bytes@ == buf@.subrange(start as int, k as int),
        decreases stop - k,
    {
        bytes.push(buf[k]);
        k = k + 1;
        assert(bytes@ =~= buf@.subrange(start as int, k as int));
    }
    assert(bytes@ =~= until_nul(field));
    name_or_empty(decode_utf8(bytes))
}

} // verus!
