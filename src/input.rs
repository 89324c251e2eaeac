//! Turning the bytes of a report file into the text that the decoders read:
//! decoded from Windows-1252, line breaks made plain, non-ASCII characters
//! left out.

use vstd::prelude::*;
use vstd::string::*;
use crate::text::chars_of;

verus! {

/// Relies on `encoding_rs::Encoding::decode_without_bom_handling` for
/// `WINDOWS_1252`, a single-byte decoder: one character for each byte, bytes
/// below 0x80 and from 0xA0 up standing for the code point of the same value,
/// and bytes 0x80 to 0x9F for characters outside ASCII (its table has no gaps).
/// Its buffer arithmetic fails on inputs near the size of the address space,
/// which `requires` leaves out.
#[verifier::external_body]
fn decode_windows_1252(bytes: &[u8]) -> (r: String)
    requires
        bytes@.len() <= usize::MAX / 8,
    ensures
        r@.len() == bytes@.len(),
        forall|i: int|
            0 <= i < bytes@.len() && (bytes@[i] < 0x80 || bytes@[i] >= 0xA0) ==> r@[i] == (
            #[trigger] bytes@[i]) as char,
        forall|i: int| 0 <= i < bytes@.len() && #[trigger] bytes@[i] >= 0x80 ==> (r@[i] as u32) >= 0x80,
{
    encoding_rs::WINDOWS_1252.decode_without_bom_handling(bytes).0.into_owned()
}

/// The byte at `i` of `b` stays in the report text: it is ASCII, and it is
/// not a carriage return that a line feed follows.
pub open spec fn byte_kept_at(b: Seq<u8>, i: int) -> bool {
    &&& b[i] < 0x80
    &&& !(b[i] == 13 && i + 1 < b.len() && b[i + 1] == 10)
}

/// The characters for the bytes of `b` before index `n` that stay in the
/// report text.
pub open spec fn bytes_kept_upto(b: Seq<u8>, n: int) -> Seq<char>
    decreases n,
{
    if n <= 0 {
        Seq::empty()
    } else if byte_kept_at(b, n - 1) {
        bytes_kept_upto(b, n - 1).push(b[n - 1] as char)
    } else {
        bytes_kept_upto(b, n - 1)
    }
}

/// The report text that the bytes `b` of a Windows-1252 file give: its ASCII
/// bytes as characters, without the carriage returns before line feeds.
pub open spec fn report_text(b: Seq<u8>) -> Seq<char> {
    bytes_kept_upto(b, b.len() as int)
}

/// The character at `i` of `s` stays in the normalised text: it is ASCII,
/// and it is not a carriage return that a line feed follows.
pub open spec fn kept_at(s: Seq<char>, i: int) -> bool {
    &&& (s[i] as u32) < 128
    &&& !(s[i] == '\r' && i + 1 < s.len() && s[i + 1] == '\n')
}

/// The characters of `s` before index `n` that stay in the normalised text.
pub open spec fn kept_upto(s: Seq<char>, n: int) -> Seq<char>
    decreases n,
{
    if n <= 0 {
        Seq::empty()
    } else if kept_at(s, n - 1) {
        kept_upto(s, n - 1).push(s[n - 1])
    } else {
        kept_upto(s, n - 1)
    }
}

/// `s` with each carriage return before a line feed and each non-ASCII
/// character left out.
pub open spec fn normalized(s: Seq<char>) -> Seq<char> {
    kept_upto(s, s.len() as int)
}

/// `text` with each carriage return before a line feed and each non-ASCII
/// character left out.
pub fn normalize(text: &str) -> (r: String)
    ensures
        r@ == normalized(text@),
{
    let cs = chars_of(text);
    let n = cs.len();
    let mut out = String::new();
    let mut run: usize = 0;
    let mut i: usize = 0;
    while i < n
        invariant
            run <= i <= n == cs@.len(),
            cs@ == text@,
            out@ + text@.subrange(run as int, i as int) == kept_upto(text@, i as int),
        decreases n - i,
    {
        let c = cs[i];
        let keep = (c as u32) < 128 && !(c == '\r' && i + 1 < n && cs[i + 1] == '\n');
        assert(keep == kept_at(text@, i as int));
        if keep {
            assert(text@.subrange(run as int, i + 1) =~= text@.subrange(run as int, i as int).push(
                c,
            ));
            assert(out@ + text@.subrange(run as int, i + 1) =~= (out@ + text@.subrange(
                run as int,
                i as int,
            )).push(c));
        } else {
            let piece = text.substring_char(run, i);
            out.append(piece);
            run = i + 1;
            assert(text@.subrange(run as int, i + 1) =~= Seq::<char>::empty());
            assert(out@ + text@.subrange(run as int, i + 1) =~= out@);
        }
        i += 1;
    }
    let piece = text.substring_char(run, n);
    out.append(piece);
    out
}

/// Normalising a decoded Windows-1252 text keeps exactly the report text of
/// its bytes.
proof fn lemma_decoded_normalized(b: Seq<u8>, t: Seq<char>, n: int)
    requires
        t.len() == b.len(),
        0 <= n <= b.len(),
        forall|i: int|
            0 <= i < b.len() && (b[i] < 0x80 || b[i] >= 0xA0) ==> t[i] == (#[trigger] b[i]) as char,
        forall|i: int| 0 <= i < b.len() && #[trigger] b[i] >= 0x80 ==> (t[i] as u32) >= 0x80,
    ensures
        kept_upto(t, n) == bytes_kept_upto(b, n),
    decreases n,
{
    if n > 0 {
        lemma_decoded_normalized(b, t, n - 1);
        let i = n - 1;
        if b[i] < 0x80 {
            assert(t[i] == b[i] as char);
        } else {
            assert((t[i] as u32) >= 0x80);
        }
        if i + 1 < b.len() {
            if b[i + 1] < 0x80 {
                assert(t[i + 1] == b[i + 1] as char);
            } else {
                assert((t[i + 1] as u32) >= 0x80);
            }
        }
        assert(kept_at(t, i) == byte_kept_at(b, i));
    }
}

/// The text of a report file: its bytes decoded from Windows-1252, then
/// normalised; that is, its ASCII bytes without the carriage returns before
/// line feeds.
pub fn decode_report(bytes: &[u8]) -> (r: String)
    requires
        bytes@.len() <= usize::MAX / 8,
    ensures
        r@ == report_text(bytes@),
{
    let text = decode_windows_1252(bytes);
    let r = normalize(text.as_str());
    proof {
        lemma_decoded_normalized(bytes@, text@, bytes@.len() as int);
    }
    r
}

} // verus!
