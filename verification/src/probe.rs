//! What a reply tells about the size of a target and whether it can be cut up.
use vstd::prelude::*;
use vstd::string::*;
use vstd::utf8::*;
use reqwest::header::HeaderValue;
use crate::text::{
    after_last, after_last_ends_the_text, decimal, decimal_reads_back, parse_u64, tail_after,
    u64_value,
};

verus! {

/// The status of a reply that holds a part of the target.
pub const PARTIAL_CONTENT: u16 = 206;

/// Whether a status code reports success.
pub open spec fn successful(status: u16) -> bool {
    200 <= status < 300
}

/// The codes that report success are those whose first digit of three is a two.
pub proof fn success_codes_start_with_two(status: u16)
    ensures
        successful(status) <==> status / 100 == 2,
{
}

/// Whether a status code reports success.
pub fn is_success(status: u16) -> (r: bool)
    ensures
        r == (200 <= status < 300),
        r == successful(status),
{
    200 <= status && status < 300
}

/// Whether the reply to a `HEAD` request, if any came, will do.
pub open spec fn will_do(status: Option<u16>) -> bool {
    match status {
        Some(s) => successful(s),
        None => false,
    }
}

/// A reply to a `HEAD` request will do if and only if there is one and it reports success.
pub proof fn only_a_success_will_do(status: u16)
    ensures
        will_do(Some(status)) <==> status / 100 == 2,
        !will_do(None),
{
}

/// Whether the reply to a `HEAD` request, if any came, will do. If not, the first byte is
/// asked for with a `GET` request.
pub fn head_suffices(status: Option<u16>) -> (r: bool)
    ensures
        r == (status matches Some(s) && 200 <= s < 300),
        r == will_do(status),
{
    match status {
        Some(s) => is_success(s),
        None => false,
    }
}

/// Why a target cannot be downloaded.
#[derive(Clone, Copy, Debug, PartialEq, Eq, Structural)]
pub enum ProbeError {
    UnknownSize,
}

impl ProbeError {
    pub fn message(&self) -> (r: String)
        ensures
            r@ == "Could not determine size"@,
    {
        "Could not determine size".to_string()
    }
}

/// The parts of a reply that tell about the target: its status and, where they were
/// sent, the bytes of three headers.
pub struct ResponseHead {
    pub status: u16,
    pub content_range: Option<Vec<u8>>,
    pub content_length: Option<Vec<u8>>,
    pub accept_ranges: Option<Vec<u8>>,
}

pub open spec fn is_visible(b: u8) -> bool {
    32 <= b < 127 || b == 9
}

/// The text of a header, if it is made of visible ASCII characters, blanks and tabs.
pub open spec fn visible_text(bytes: Seq<u8>) -> Option<Seq<char>> {
    if forall|i: int| 0 <= i < bytes.len() ==> is_visible(#[trigger] bytes[i]) {
        Some(bytes.map_values(|b: u8| b as char))
    } else {
        None
    }
}

/// Calls `HeaderValue::to_str` on the header with these bytes: the text of the header, if
/// all its bytes are visible ASCII characters, blanks or tabs.
#[verifier::external_body]
fn header_text(bytes: &Vec<u8>) -> (r: Option<String>)
    ensures
        match r {
            Some(t) => visible_text(bytes@) == Some(t@),
            None => visible_text(bytes@) is None,
        },
{
    match HeaderValue::from_bytes(bytes) {
        Ok(value) => match value.to_str() {
            Ok(text) => Some(text.to_string()),
            Err(_) => None,
        },
        Err(_) => None,
    }
}

impl ResponseHead {
    /// The size of the target: in a reply with a part of it, what follows the last slash
    /// of `Content-Range`; in any other, `Content-Length`.
    pub open spec fn size(self) -> Option<nat> {
        if self.status == PARTIAL_CONTENT {
            match self.content_range {
                Some(bytes) => match visible_text(bytes@) {
                    Some(text) => u64_value(after_last(text, '/')),
                    None => None,
                },
                None => None,
            }
        } else {
            match self.content_length {
                Some(bytes) => match visible_text(bytes@) {
                    Some(text) => u64_value(text),
                    None => None,
                },
                None => None,
            }
        }
    }

    /// Whether the server sends parts of the target: `Accept-Ranges` decides; where it was
    /// not sent, any sign of a partial reply does.
    pub open spec fn ranges(self) -> bool {
        match self.accept_ranges {
            Some(bytes) => bytes@ == encode_utf8("bytes"@),
            None => self.status == PARTIAL_CONTENT || self.content_range is Some,
        }
    }

    /// The size of the target and whether it can be fetched in parts.
    pub fn inspect(&self) -> (r: Result<(u64, bool), ProbeError>)
        ensures
            match r {
                Ok((size, ranges)) => self.size() == Some(size as nat) && ranges == self.ranges(),
                Err(e) => self.size() is None && e == ProbeError::UnknownSize,
            },
            r matches Ok((_, ranges)) ==> match self.accept_ranges {
                Some(bytes) => ranges == (bytes@ == encode_utf8("bytes"@)),
                None => ranges == (self.status == 206 || self.content_range is Some),
            },
    {
        let size = if self.status == PARTIAL_CONTENT {
            match &self.content_range {
                Some(bytes) => match header_text(bytes) {
                    Some(text) => parse_u64(tail_after(text.as_str(), '/')).ok(),
                    None => None,
                },
                None => None,
            }
        } else {
            match &self.content_length {
                Some(bytes) => match header_text(bytes) {
                    Some(text) => parse_u64(text.as_str()).ok(),
                    None => None,
                },
                None => None,
            }
        };
        let ranges = match &self.accept_ranges {
            Some(bytes) => same_bytes(bytes.as_slice(), "bytes".as_bytes()),
            None => self.status == PARTIAL_CONTENT || self.content_range.is_some(),
        };
        match size {
            Some(size) => Ok((size, ranges)),
            None => Err(ProbeError::UnknownSize),
        }
    }
}

fn same_bytes(a: &[u8], b: &[u8]) -> (r: bool)
    ensures
        r == (a@ == b@),
{
    if a.len() != b.len() {
        return false;
    }
    let mut i: usize = 0;
    while i < a.len()
        invariant
            i <= a.len(),
            a.len() == b.len(),
            forall|j: int| 0 <= j < i ==> a[j] == b[j],
        decreases a.len() - i,
    {
        if a[i] != b[i] {
            return false;
        }
        i = i + 1;
    }
    assert(a@ =~= b@);
    true
}

/// A file is massive if it has more than a gibibyte.
pub open spec fn is_massive(size: nat) -> bool {
    size > 1024 * 1024 * 1024
}

/// A gibibyte is not massive yet; one more byte is, and what is larger than a massive file is
/// massive too.
pub proof fn massive_files_exceed_a_gibibyte(size: nat, larger: nat)
    requires
        size <= larger,
    ensures
        !is_massive(0x4000_0000),
        is_massive(0x4000_0001),
        is_massive(size) ==> is_massive(larger),
{
}

/// Whether the blocks of a file of this size are reserved before the download: only for
/// files of more than a gibibyte, since it takes time.
pub fn reserves_blocks(size: u64) -> (r: bool)
    ensures
        r == (size > 1024 * 1024 * 1024),
        r == is_massive(size as nat),
{
    size > 1024 * 1024 * 1024
}

proof fn lemma_after_last_of_tail(head: Seq<char>, tail: Seq<char>, c: char)
    requires
        !tail.contains(c),
    ensures
        after_last(head.push(c) + tail, c) == tail,
    decreases tail.len(),
{
    let s = head.push(c) + tail;
    if tail.len() == 0 {
        assert(s.last() == c);
    } else {
        assert(tail.contains(tail.last()));
        assert forall|i: int| 0 <= i < tail.drop_last().len() implies tail.drop_last()[i] != c by {
            assert(tail.contains(tail[i]));
        }
        lemma_after_last_of_tail(head, tail.drop_last(), c);
        assert(s.drop_last() =~= head.push(c) + tail.drop_last());
        assert(tail =~= tail.drop_last().push(tail.last()));
    }
}

/// A partial reply gives the size that stands behind the slash of its `Content-Range`,
/// whatever part it holds.
pub proof fn partial_reply_gives_total_size(head: ResponseHead, part: Seq<char>, size: u64)
    requires
        head.status == PARTIAL_CONTENT,
        head.content_range matches Some(bytes) && visible_text(bytes@) == Some(
            part.push('/') + decimal(size as nat),
        ),
    ensures
        head.size() == Some(size as nat),
{
    decimal_reads_back(size);
    let digits = decimal(size as nat);
    crate::text::lemma_decimal_digits(size as nat);
    assert forall|i: int| 0 <= i < digits.len() implies digits[i] != '/' by {
        assert(crate::text::is_digit(digits[i]));
    }
    lemma_after_last_of_tail(part, digits, '/');
}

/// Any other reply gives the size that its `Content-Length` states.
pub proof fn full_reply_gives_its_length(head: ResponseHead, size: u64)
    requires
        head.status != PARTIAL_CONTENT,
        head.content_length matches Some(bytes) && visible_text(bytes@) == Some(
            decimal(size as nat),
        ),
    ensures
        head.size() == Some(size as nat),
{
    decimal_reads_back(size);
}

/// Where a reply has `Accept-Ranges`, that header alone decides: the target is fetched in
/// parts if and only if it reads `bytes`, whatever the status and the other headers are.
pub proof fn accept_ranges_decides(head: ResponseHead)
    requires
        head.accept_ranges is Some,
    ensures
        head.ranges() <==> head.accept_ranges->0@ == encode_utf8("bytes"@),
        head.ranges() <==> head.accept_ranges->0@ == seq![98u8, 121u8, 116u8, 101u8, 115u8],
{
    reveal_strlit("bytes");
    assert("bytes"@ =~= seq!['b', 'y', 't', 'e', 's']);
    is_ascii_chars_encode_utf8("bytes"@);
    assert(encode_utf8("bytes"@) =~= seq![98u8, 121u8, 116u8, 101u8, 115u8]);
}

/// Where a reply lacks `Accept-Ranges`, the target is fetched in parts if and only if the
/// reply is partial or has a `Content-Range`.
pub proof fn signs_of_a_part_decide_otherwise(head: ResponseHead)
    requires
        head.accept_ranges is None,
    ensures
        head.ranges() <==> head.status == 206 || head.content_range is Some,
{
}

/// The size in a partial reply is the number behind the last slash of its `Content-Range`, or
/// all of it where it has no slash; no other header counts.
pub proof fn partial_size_stands_behind_the_last_slash(
    head: ResponseHead,
    part: Seq<char>,
    tail: Seq<char>,
)
    requires
        head.status == 206,
        !tail.contains('/'),
    ensures
        head.content_range is None ==> head.size() is None,
        head.content_range matches Some(bytes) && visible_text(bytes@) is None ==> head.size()
            is None,
        head.content_range matches Some(bytes) && visible_text(bytes@) == Some(
            part.push('/') + tail,
        ) ==> head.size() == u64_value(tail),
        head.content_range matches Some(bytes) && visible_text(bytes@) == Some(tail)
            ==> head.size() == u64_value(tail),
{
    lemma_after_last_of_tail(part, tail, '/');
    let n = after_last_ends_the_text(tail, '/');
    if n > 0 {
        assert(tail.contains(tail[n - 1]));
    }
    assert(tail.skip(0) =~= tail);
}

/// The size in any other reply is the number that is its `Content-Length`; no other header
/// counts.
pub proof fn full_size_is_the_content_length(head: ResponseHead, text: Seq<char>)
    requires
        head.status != 206,
    ensures
        head.content_length is None ==> head.size() is None,
        head.content_length matches Some(bytes) && visible_text(bytes@) is None ==> head.size()
            is None,
        head.content_length matches Some(bytes) && visible_text(bytes@) == Some(text)
            ==> head.size() == u64_value(text),
{
}

/// A header reads as its bytes do, one character for each, unless it has a byte that is no
/// blank, tab or visible ASCII character.
pub proof fn headers_read_byte_by_byte(bytes: Seq<u8>)
    ensures
        visible_text(bytes) is None <==> exists|i: int|
            0 <= i < bytes.len() && ((#[trigger] bytes[i]) > 126 || (bytes[i] < 32 && bytes[i] != 9)),
        visible_text(bytes) matches Some(text) ==> text.len() == bytes.len() && forall|i: int|
            0 <= i < bytes.len() ==> #[trigger] text[i] as int == bytes[i] as int,
{
}

} // verus!
