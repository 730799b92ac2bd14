//! Resumable uploads: the record that lets an interrupted upload resume,
//! the upload's metadata, and which part of each chunk read from the file
//! is sent where.
use vstd::prelude::*;
use vstd::utf8::encode_utf8;

use base64::Engine;
use blake2::Digest;

use crate::text::{concat2, decimal, decimal_nat, digit_char, hex_lower, owned, push_str, to_hex_lower, u64_to_decimal};

verus! {

/// What the BLAKE2b-512 hash of a byte string is (64 bytes).
pub uninterp spec fn blake2b512(data: Seq<u8>) -> Seq<u8>;

/// Calls `Digest::digest` of `blake2::Blake2b512` on the bytes. The hash is
/// named, not stated; its length is 64 bytes, as the type's output size shows.
#[verifier::external_body]
fn blake2b512_digest(data: &[u8]) -> (res: Vec<u8>)
    ensures
        res@ == blake2b512(data@),
        res@.len() == 64,
{
    blake2::Blake2b512::digest(data).to_vec()
}

/// The base64 digit for a value below 64, in the standard alphabet.
pub open spec fn base64_digit(v: int) -> char {
    if v < 26 {
        (65 + v) as char
    } else if v < 52 {
        (97 + v - 26) as char
    } else if v < 62 {
        (48 + v - 52) as char
    } else if v == 62 {
        '+'
    } else {
        '/'
    }
}

/// Base64 with the standard alphabet and '=' padding: each group of three
/// bytes becomes four digits of six bits each; a last group of one or two
/// bytes is padded to four digits.
pub open spec fn base64_encode(b: Seq<u8>) -> Seq<char>
    decreases b.len(),
{
    let x0 = if b.len() > 0 { b[0] as int } else { 0 };
    let x1 = if b.len() > 1 { b[1] as int } else { 0 };
    let x2 = if b.len() > 2 { b[2] as int } else { 0 };
    if b.len() == 0 {
        seq![]
    } else if b.len() == 1 {
        seq![base64_digit(x0 / 4), base64_digit((x0 % 4) * 16), '=', '=']
    } else if b.len() == 2 {
        seq![base64_digit(x0 / 4), base64_digit((x0 % 4) * 16 + x1 / 16), base64_digit((x1 % 16) * 4), '=']
    } else {
        seq![
            base64_digit(x0 / 4),
            base64_digit((x0 % 4) * 16 + x1 / 16),
            base64_digit((x1 % 16) * 4 + x2 / 64),
            base64_digit(x2 % 64),
        ] + base64_encode(b.skip(3))
    }
}

/// The encoded length fits in memory: `base64` panics otherwise.
pub open spec fn base64_fits(len: nat) -> bool {
    (len / 3) * 4 + (if len % 3 == 0 { 0int } else { 4 }) <= usize::MAX
}

/// Calls `Engine::encode` of `base64::engine::general_purpose::STANDARD`:
/// the standard alphabet with padding, as `base64_encode` states it.
#[verifier::external_body]
fn base64_standard(data: &[u8]) -> (res: String)
    requires
        base64_fits(data@.len()),
    ensures
        res@ == base64_encode(data@),
{
    base64::engine::general_purpose::STANDARD.encode(data)
}

/// The name of the file that records where an upload goes, so that it can
/// resume: "kaput_" and the hexadecimal BLAKE2b-512 hash of the file's
/// absolute path, an underscore and its modification time.
pub open spec fn resume_record_name_spec(absolute_path: Seq<char>, last_modified_unix: u64) -> Seq<char> {
    "kaput_"@ + hex_lower(blake2b512(encode_utf8(absolute_path + "_"@ + decimal(last_modified_unix as int))))
}

/// The name of the file that records where the upload of a file goes.
pub fn resume_record_name(absolute_path: &str, last_modified_unix: u64) -> (res: String)
    ensures
        res@ == resume_record_name_spec(absolute_path@, last_modified_unix),
{
    let mut key = concat2(absolute_path, "_");
    let time = u64_to_decimal(last_modified_unix);
    push_str(&mut key, time.as_str());
    let digest = blake2b512_digest(key.as_str().as_bytes());
    let hex = to_hex_lower(digest.as_slice());
    concat2("kaput_", hex.as_str())
}

/// The metadata sent when an upload is created: the file's name, that it is
/// not a torrent, and the folder it goes to ("0", the root, when none is
/// given), each base64-encoded.
pub open spec fn upload_metadata_spec(file_name: Seq<char>, parent_id: Option<Seq<char>>) -> Seq<char> {
    "name "@ + base64_encode(encode_utf8(file_name))
        + ",no-torrent "@ + base64_encode(encode_utf8("true"@))
        + ",parent_id "@ + base64_encode(encode_utf8(match parent_id { Some(p) => p, None => "0"@ }))
}

/// The `upload-metadata` header of a new upload.
pub fn upload_metadata(file_name: &str, parent_id: Option<&String>) -> (res: String)
    requires
        base64_fits(encode_utf8(file_name@).len()),
        parent_id matches Some(p) ==> base64_fits(encode_utf8(p@).len()),
    ensures
        res@ == upload_metadata_spec(file_name@, match parent_id { Some(p) => Some(p@), None => None }),
{
    let name64 = base64_standard(file_name.as_bytes());
    proof {
        reveal_strlit("true");
        reveal_strlit("0");
        vstd::string::is_ascii_spec_bytes("true");
        vstd::string::is_ascii_spec_bytes("0");
    }
    let no_torrent64 = base64_standard("true".as_bytes());
    let parent64 = match parent_id {
        Some(p) => base64_standard(p.as_str().as_bytes()),
        None => base64_standard("0".as_bytes()),
    };
    let mut res = concat2("name ", name64.as_str());
    push_str(&mut res, ",no-torrent ");
    push_str(&mut res, no_torrent64.as_str());
    push_str(&mut res, ",parent_id ");
    push_str(&mut res, parent64.as_str());
    res
}

/// Where a new upload goes: the `location` header of a "201 Created" reply;
/// any other reply gives no location.
pub fn upload_location(status: u16, location: Option<String>) -> (res: Option<String>)
    ensures
        res == (if status == 201 { location } else { None }),
{
    if status == 201 {
        location
    } else {
        None
    }
}

/// The value of a string of decimal digits.
pub open spec fn digits_value(d: Seq<char>) -> nat
    decreases d.len(),
{
    if d.len() == 0 {
        0
    } else {
        digits_value(d.drop_last()) * 10 + (d.last() as nat - 48) as nat
    }
}

/// Whether the character is an ASCII digit.
pub open spec fn is_digit(c: char) -> bool {
    '0' <= c && c <= '9'
}

/// The digits of a number after an optional leading '+'.
pub open spec fn sign_stripped(s: Seq<char>) -> Seq<char> {
    if s.len() > 0 && s[0] == '+' { s.skip(1) } else { s }
}

/// Whether every character is an ASCII digit.
pub open spec fn all_digits(d: Seq<char>) -> bool {
    forall|i: int| 0 <= i < d.len() ==> is_digit(#[trigger] d[i])
}

/// What `u64::from_str` accepts: an optional '+', then one or more ASCII
/// digits whose value fits in 64 bits.
pub open spec fn parse_u64_spec(s: Seq<char>) -> Option<u64> {
    let d = sign_stripped(s);
    if d.len() > 0 && all_digits(d) && digits_value(d) <= u64::MAX {
        Some(digits_value(d) as u64)
    } else {
        None
    }
}

proof fn lemma_digits_value_monotone(d: Seq<char>, k: int)
    requires
        0 <= k <= d.len(),
        forall|i: int| 0 <= i < d.len() ==> is_digit(#[trigger] d[i]),
    ensures
        digits_value(d.take(k)) <= digits_value(d),
    decreases d.len() - k,
{
    if k < d.len() {
        lemma_digits_value_monotone(d, k + 1);
        assert(d.take(k + 1).drop_last() =~= d.take(k));
    } else {
        assert(d.take(k) =~= d);
    }
}

proof fn lemma_decimal_digits(n: nat)
    ensures
        decimal_nat(n).len() > 0,
        all_digits(decimal_nat(n)),
        digits_value(decimal_nat(n)) == n,
    decreases n,
{
    let c = digit_char((n % 10) as int);
    assert(is_digit(c) && c as nat - 48 == n % 10);
    if n >= 10 {
        lemma_decimal_digits(n / 10);
        let s = decimal_nat(n / 10);
        assert(decimal_nat(n) == s.push(c));
        assert(s.push(c).drop_last() =~= s);
        assert(all_digits(s.push(c)));
        assert(digits_value(s.push(c)) == digits_value(s) * 10 + (c as nat - 48) as nat);
        assert((n / 10) * 10 + n % 10 == n);
    } else {
        assert(decimal_nat(n) == seq![c]);
        assert(seq![c].drop_last() =~= Seq::<char>::empty());
        assert(digits_value(seq![c]) == digits_value(Seq::<char>::empty()) * 10 + (c as nat - 48) as nat);
    }
}

/// A number written in decimal reads back as itself: the offset that the
/// service writes for byte `n` of an upload is read as `n`.
pub proof fn law_decimal_reads_back(n: u64)
    ensures
        parse_u64_spec(decimal_nat(n as nat)) == Some(n),
{
    lemma_decimal_digits(n as nat);
    let d = decimal_nat(n as nat);
    assert(is_digit(d[0]));
    assert(sign_stripped(d) == d);
}

/// Reads a decimal number as `str::parse::<u64>` does.
pub fn parse_u64(s: &str) -> (res: Option<u64>)
    ensures
        res == parse_u64_spec(s@),
{
    let cs = crate::text::chars_of(s);
    let start: usize = if cs.len() > 0 && cs[0] == '+' { 1 } else { 0 };
    let ghost d = sign_stripped(s@);
    proof {
        assert(d =~= cs@.skip(start as int));
    }
    if start >= cs.len() {
        return None;
    }
    let mut value: u64 = 0;
    let mut i: usize = start;
    while i < cs.len()
        invariant
            start <= i <= cs@.len(),
            start < cs@.len(),
            d == cs@.skip(start as int),
            d == sign_stripped(s@),
            forall|j: int| 0 <= j < i - start ==> is_digit(#[trigger] d[j]),
            value as nat == digits_value(d.take(i - start)),
        decreases cs@.len() - i,
    {
        let c = cs[i];
        if c < '0' || c > '9' {
            proof {
                assert(!is_digit(d[i - start]));
                assert(!all_digits(d));
                assert(parse_u64_spec(s@) is None);
            }
            return None;
        }
        let digit = (c as u32 - 48) as u64;
        proof {
            assert(d.take(i - start + 1).drop_last() =~= d.take(i - start));
            assert(d.take(i - start + 1).last() == c);
        }
        let next = match value.checked_mul(10) {
            Some(v) => v.checked_add(digit),
            None => None,
        };
        match next {
            Some(v) => {
                value = v;
            },
            None => {
                proof {
                    assert(digits_value(d.take(i - start + 1)) > u64::MAX);
                    // Any digits after these only make the number larger.
                    if all_digits(d) {
                        lemma_digits_value_monotone(d, i - start + 1);
                        assert(digits_value(d) > u64::MAX);
                    }
                    assert(parse_u64_spec(s@) is None);
                }
                return None;
            },
        }
        i = i + 1;
    }
    proof {
        assert(d.take(d.len() as int) =~= d);
    }
    Some(value)
}

/// The offset at which an interrupted upload resumes, from the reply to a
/// HEAD request: the `upload-offset` header of a "200 OK" reply, read as a
/// number; 0 when the reply is anything else or lacks the header. None
/// when the header is not a number (the upload cannot go on).
pub fn resume_offset(status: u16, upload_offset: Option<&str>) -> (res: Option<u64>)
    ensures
        status != 200 ==> res == Some(0u64),
        status == 200 ==> res == match upload_offset {
            Some(v) => parse_u64_spec(v@),
            None => Some(0u64),
        },
{
    if status == 200 {
        match upload_offset {
            Some(v) => parse_u64(v),
            None => Some(0),
        }
    } else {
        Some(0)
    }
}

/// What to do with a chunk just read from the file.
pub enum ChunkPlan {
    /// Nothing was read: the whole file has been sent.
    Finished,
    /// The chunk lies before the resume offset: read on. `total` bytes have
    /// been read so far.
    Skip { total: u64 },
    /// Send the chunk from byte `skip` on, as the part of the file that
    /// starts at `upload_offset`; the request's `content-length` header says
    /// `content_length`. `total` bytes have been read so far.
    Send { total: u64, skip: usize, upload_offset: u64, content_length: usize },
}

/// Decides what to do with a chunk of `bytes_read` bytes read after
/// `total_before` bytes, when the upload resumes at `resume_offset`: skip
/// chunks that end before the offset; send the rest of the chunk in which it
/// falls from the offset on; send later chunks whole, and likewise a chunk
/// that ends exactly at the offset, from its start. The content length
/// given is the chunk's full length, even when part of it is skipped.
/// Unless the chunk ends exactly at the resume offset, the part of it that
/// is taken (from `skip` on) is exactly its bytes at or after that offset,
/// and `upload_offset` is the file position of its first byte.
pub fn plan_chunk(total_before: u64, bytes_read: usize, resume_offset: u64) -> (res: ChunkPlan)
    requires
        total_before + bytes_read <= u64::MAX,
    ensures
        bytes_read > 0 && total_before + bytes_read != resume_offset ==> match res {
            ChunkPlan::Send { total, skip, upload_offset, .. } => {
                &&& total_before + bytes_read >= resume_offset
                &&& upload_offset == vstd::math::max(total_before as int, resume_offset as int)
                &&& upload_offset == total_before + skip
                &&& total == total_before + bytes_read
            },
            ChunkPlan::Skip { .. } => total_before + bytes_read < resume_offset,
            ChunkPlan::Finished => false,
        },
        bytes_read == 0 ==> res is Finished,
        bytes_read > 0 ==> {
            let start = total_before as int;
            let end = total_before + bytes_read;
            if end < resume_offset {
                res == (ChunkPlan::Skip { total: end as u64 })
            } else if start <= resume_offset && resume_offset < end {
                res == (ChunkPlan::Send {
                    total: end as u64,
                    skip: (resume_offset - start) as usize,
                    upload_offset: resume_offset,
                    content_length: bytes_read,
                })
            } else {
                res == (ChunkPlan::Send { total: end as u64, skip: 0, upload_offset: total_before, content_length: bytes_read })
            }
        },
{
    if bytes_read == 0 {
        return ChunkPlan::Finished;
    }
    let start = total_before;
    let end = total_before + bytes_read as u64;
    if end < resume_offset {
        return ChunkPlan::Skip { total: end };
    }
    if resume_offset >= start && resume_offset < end {
        ChunkPlan::Send { total: end, skip: (resume_offset - start) as usize, upload_offset: resume_offset, content_length: bytes_read }
    } else {
        ChunkPlan::Send { total: end, skip: 0, upload_offset: start, content_length: bytes_read }
    }
}

} // verus!
