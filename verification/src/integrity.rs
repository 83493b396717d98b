//! Checking a finished file against the digests that were asked for.
use vstd::prelude::*;
use vstd::string::*;
use vstd::utf8::*;
use sha2::Digest;
use crate::text::{all_ascii_lower, lowercase, opt_text, to_lowercase};

verus! {

/// Why a file is refused.
#[derive(Clone, Copy, Debug, PartialEq, Eq, Structural)]
pub enum IntegrityError {
    Sha256Mismatch,
    Md5Mismatch,
}

impl IntegrityError {
    pub open spec fn text(self) -> Seq<char> {
        match self {
            IntegrityError::Sha256Mismatch => "Integrity check failed: SHA256 mismatch"@,
            IntegrityError::Md5Mismatch => "Integrity check failed: MD5 mismatch"@,
        }
    }

    pub fn message(&self) -> (r: String)
        ensures
            r@ == self.text(),
    {
        match self {
            IntegrityError::Sha256Mismatch => "Integrity check failed: SHA256 mismatch".to_string(),
            IntegrityError::Md5Mismatch => "Integrity check failed: MD5 mismatch".to_string(),
        }
    }
}

/// `sha2::Sha256`, whose input is named by `sha256_input`.
#[verifier::external_type_specification]
#[verifier::external_body]
pub struct ExSha256(sha2::Sha256);

/// `md5::Context`, whose input is named by `md5_input`.
#[verifier::external_type_specification]
#[verifier::external_body]
pub struct ExMd5Context(md5::Context);

/// The bytes that a SHA-256 hasher has been given.
pub uninterp spec fn sha256_input(hasher: sha2::Sha256) -> Seq<u8>;

/// The bytes that an MD5 hasher has been given.
pub uninterp spec fn md5_input(hasher: md5::Context) -> Seq<u8>;

/// The SHA-256 digest of `data`.
pub uninterp spec fn sha256(data: Seq<u8>) -> Seq<u8>;

/// The MD5 digest of `data`.
pub uninterp spec fn md5(data: Seq<u8>) -> Seq<u8>;

pub open spec fn hex_digit(n: int) -> char {
    if n < 10 {
        ('0' as int + n) as char
    } else {
        ('a' as int + n - 10) as char
    }
}

/// Two lower-case hexadecimal digits for each byte.
pub open spec fn lower_hex(bytes: Seq<u8>) -> Seq<char> {
    Seq::new(
        2 * bytes.len(),
        |i: int|
            hex_digit(
                if i % 2 == 0 {
                    bytes[i / 2] as int / 16
                } else {
                    bytes[i / 2] as int % 16
                },
            ),
    )
}

/// Calls `Sha256::new`: a hasher that has been given nothing.
#[verifier::external_body]
fn sha256_new() -> (hasher: sha2::Sha256)
    ensures
        sha256_input(hasher) == Seq::<u8>::empty(),
{
    sha2::Sha256::new()
}

/// Calls `Digest::update` of SHA-256: gives the hasher more bytes.
#[verifier::external_body]
fn sha256_update(hasher: &mut sha2::Sha256, data: &[u8])
    ensures
        sha256_input(*final(hasher)) == sha256_input(*old(hasher)) + data@,
{
    hasher.update(data);
}

/// Calls `Digest::finalize` of SHA-256: the digest of all the bytes that the hasher was
/// given, whatever the pieces in which it got them.
#[verifier::external_body]
fn sha256_finalize(hasher: sha2::Sha256) -> (digest: Vec<u8>)
    ensures
        digest@ == sha256(sha256_input(hasher)),
        digest@.len() == 32,
{
    hasher.finalize().to_vec()
}

/// Calls `md5::Context::new`: a hasher that has been given nothing.
#[verifier::external_body]
fn md5_new() -> (hasher: md5::Context)
    ensures
        md5_input(hasher) == Seq::<u8>::empty(),
{
    md5::Context::new()
}

/// Calls `md5::Context::consume`: gives the hasher more bytes.
#[verifier::external_body]
fn md5_consume(hasher: &mut md5::Context, data: &[u8])
    ensures
        md5_input(*final(hasher)) == md5_input(*old(hasher)) + data@,
{
    hasher.consume(data);
}

/// Calls `md5::Context::compute`: the digest of all the bytes that the hasher was given,
/// whatever the pieces in which it got them.
#[verifier::external_body]
fn md5_compute(hasher: md5::Context) -> (digest: [u8; 16])
    ensures
        digest@ == md5(md5_input(hasher)),
{
    hasher.compute().0
}

/// Calls `hex::encode`: two lower-case hexadecimal digits for each byte.
#[verifier::external_body]
fn hex_encode(bytes: &Vec<u8>) -> (r: String)
    ensures
        r@ == lower_hex(bytes@),
{
    hex::encode(bytes)
}

/// Calls the `LowerHex` formatting of `md5::Digest`: two lower-case hexadecimal digits
/// for each byte.
#[verifier::external_body]
fn md5_text(digest: [u8; 16]) -> (r: String)
    ensures
        r@ == lower_hex(digest@),
{
    format!("{:x}", md5::Digest(digest))
}

/// The digests found in a file, in hexadecimal, of those that were asked for.
pub struct Digests {
    pub sha256: Option<String>,
    pub md5: Option<String>,
}

/// A digest that was found, in lower case, is the one that was asked for, if any was, once
/// `fold` has put that in lower case too.
pub open spec fn agrees(
    expected: Option<Seq<char>>,
    found: Seq<char>,
    fold: spec_fn(Seq<char>) -> Seq<char>,
) -> bool {
    expected matches Some(e) ==> found == fold(e)
}

/// What to say of a file with these digests, in lower case.
pub open spec fn verdict(
    expected_sha256: Option<Seq<char>>,
    found_sha256: Seq<char>,
    expected_md5: Option<Seq<char>>,
    found_md5: Seq<char>,
    fold: spec_fn(Seq<char>) -> Seq<char>,
) -> Result<(), IntegrityError> {
    if !agrees(expected_sha256, found_sha256, fold) {
        Err(IntegrityError::Sha256Mismatch)
    } else if !agrees(expected_md5, found_md5, fold) {
        Err(IntegrityError::Md5Mismatch)
    } else {
        Ok(())
    }
}

pub open spec fn opt_ascii(s: Option<Seq<char>>) -> bool {
    s matches Some(t) ==> is_ascii_chars(t)
}

pub open spec fn by_lowercase() -> spec_fn(Seq<char>) -> Seq<char> {
    |s: Seq<char>| lowercase(s)
}

pub open spec fn by_ascii_lower() -> spec_fn(Seq<char>) -> Seq<char> {
    |s: Seq<char>| all_ascii_lower(s)
}

/// Whether two digests are the same but for the case of their letters.
pub fn same_digest(found: &str, expected: &str) -> (r: bool)
    ensures
        r == (lowercase(found@) == lowercase(expected@)),
        is_ascii_chars(found@) ==> r == (all_ascii_lower(found@) == lowercase(expected@)),
        is_ascii_chars(found@) && is_ascii_chars(expected@) ==> r == (all_ascii_lower(found@)
            == all_ascii_lower(expected@)),
{
    to_lowercase(found) == to_lowercase(expected)
}

/// Compares the digests found in a file with those that were asked for.
pub fn judge(
    expected_sha256: &Option<String>,
    found_sha256: &str,
    expected_md5: &Option<String>,
    found_md5: &str,
) -> (r: Result<(), IntegrityError>)
    ensures
        r == verdict(
            opt_text(*expected_sha256),
            lowercase(found_sha256@),
            opt_text(*expected_md5),
            lowercase(found_md5@),
            by_lowercase(),
        ),
        is_ascii_chars(found_sha256@) && is_ascii_chars(found_md5@) ==> r == verdict(
            opt_text(*expected_sha256),
            all_ascii_lower(found_sha256@),
            opt_text(*expected_md5),
            all_ascii_lower(found_md5@),
            by_lowercase(),
        ),
        is_ascii_chars(found_sha256@) && is_ascii_chars(found_md5@) && opt_ascii(
            opt_text(*expected_sha256),
        ) && opt_ascii(opt_text(*expected_md5)) ==> r == verdict(
            opt_text(*expected_sha256),
            all_ascii_lower(found_sha256@),
            opt_text(*expected_md5),
            all_ascii_lower(found_md5@),
            by_ascii_lower(),
        ),
{
    if let Some(expected) = expected_sha256 {
        if !same_digest(found_sha256, expected.as_str()) {
            return Err(IntegrityError::Sha256Mismatch);
        }
    }
    if let Some(expected) = expected_md5 {
        if !same_digest(found_md5, expected.as_str()) {
            return Err(IntegrityError::Md5Mismatch);
        }
    }
    Ok(())
}

/// What a check knows: the digests asked for and the bytes read so far.
#[verifier::ext_equal]
pub struct CheckState {
    pub sha256: Option<Seq<char>>,
    pub md5: Option<Seq<char>>,
    pub data: Seq<u8>,
}

impl CheckState {
    /// Each digest that was asked for is, once it is in lower case, that of the bytes.
    pub open spec fn passes(self) -> bool {
        &&& self.sha256 matches Some(e) ==> lower_hex(sha256(self.data)) == lowercase(e)
        &&& self.md5 matches Some(e) ==> lower_hex(md5(self.data)) == lowercase(e)
    }

    /// What to say of the file once its last byte was read.
    pub open spec fn outcome(self, fold: spec_fn(Seq<char>) -> Seq<char>) -> Result<
        (),
        IntegrityError,
    > {
        verdict(
            self.sha256,
            lower_hex(sha256(self.data)),
            self.md5,
            lower_hex(md5(self.data)),
            fold,
        )
    }

    pub open spec fn after(self, data: Seq<u8>) -> CheckState {
        CheckState { data: self.data + data, ..self }
    }

    /// The state after several buffers.
    pub open spec fn after_all(self, buffers: Seq<Seq<u8>>) -> CheckState
        decreases buffers.len(),
    {
        if buffers.len() == 0 {
            self
        } else {
            self.after_all(buffers.drop_last()).after(buffers.last())
        }
    }
}

/// A check in progress.
pub struct IntegrityCheck {
    sha256: Option<String>,
    md5: Option<String>,
    hasher_sha: sha2::Sha256,
    hasher_md5: md5::Context,
    data: Ghost<Seq<u8>>,
}

impl View for IntegrityCheck {
    type V = CheckState;

    closed spec fn view(&self) -> CheckState {
        CheckState { sha256: opt_text(self.sha256), md5: opt_text(self.md5), data: self.data@ }
    }
}

impl IntegrityCheck {
    /// The hashers whose digest was asked for have been given all the bytes.
    pub closed spec fn wf(&self) -> bool {
        &&& self.sha256 is Some ==> sha256_input(self.hasher_sha) == self.data@
        &&& self.md5 is Some ==> md5_input(self.hasher_md5) == self.data@
    }

    pub fn new(sha256: Option<String>, md5: Option<String>) -> (check: IntegrityCheck)
        ensures
            check.wf(),
            check@ == (CheckState {
                sha256: opt_text(sha256),
                md5: opt_text(md5),
                data: Seq::empty(),
            }),
    {
        IntegrityCheck {
            sha256,
            md5,
            hasher_sha: sha256_new(),
            hasher_md5: md5_new(),
            data: Ghost(Seq::empty()),
        }
    }

    /// Takes the next bytes of the file.
    pub fn update(&mut self, data: &[u8])
        requires
            old(self).wf(),
        ensures
            final(self).wf(),
            final(self)@ == old(self)@.after(data@),
    {
        if self.sha256.is_some() {
            sha256_update(&mut self.hasher_sha, data);
        }
        if self.md5.is_some() {
            md5_consume(&mut self.hasher_md5, data);
        }
        self.data = Ghost(self.data@ + data@);
    }

    /// Says whether the bytes taken have the digests that were asked for, and which
    /// digests those are.
    pub fn finish(self) -> (r: Result<Digests, IntegrityError>)
        requires
            self.wf(),
        ensures
            r is Ok <==> self@.passes(),
            match r {
                Ok(found) => {
                    &&& self@.outcome(by_lowercase()) is Ok
                    &&& opt_text(found.sha256) == if self@.sha256 is Some {
                        Some(lower_hex(sha256(self@.data)))
                    } else {
                        None
                    }
                    &&& opt_text(found.md5) == if self@.md5 is Some {
                        Some(lower_hex(md5(self@.data)))
                    } else {
                        None
                    }
                },
                Err(e) => self@.outcome(by_lowercase()) == Err::<(), IntegrityError>(e),
            },
            opt_ascii(self@.sha256) && opt_ascii(self@.md5) ==> match r {
                Ok(_) => self@.outcome(by_ascii_lower()) is Ok,
                Err(e) => self@.outcome(by_ascii_lower()) == Err::<(), IntegrityError>(e),
            },
    {
        let IntegrityCheck { sha256: expected_sha, md5: expected_md5, hasher_sha, hasher_md5, data } =
            self;
        let digest_sha = sha256_finalize(hasher_sha);
        let digest_md5 = md5_compute(hasher_md5);
        let found_sha = hex_encode(&digest_sha);
        let found_md5 = md5_text(digest_md5);
        proof {
            lemma_hex_is_ascii(digest_sha@);
            lemma_hex_is_ascii(digest_md5@);
        }
        match judge(&expected_sha, found_sha.as_str(), &expected_md5, found_md5.as_str()) {
            Ok(()) => Ok(
                Digests {
                    sha256: if expected_sha.is_some() {
                        Some(found_sha)
                    } else {
                        None
                    },
                    md5: if expected_md5.is_some() {
                        Some(found_md5)
                    } else {
                        None
                    },
                },
            ),
            Err(e) => Err(e),
        }
    }
}

proof fn lemma_hex_is_ascii(bytes: Seq<u8>)
    ensures
        is_ascii_chars(lower_hex(bytes)),
        all_ascii_lower(lower_hex(bytes)) == lower_hex(bytes),
{
    assert(all_ascii_lower(lower_hex(bytes)) =~= lower_hex(bytes));
}

/// The outcome depends on the bytes of the file alone, not on the buffers in which they
/// were read.
pub proof fn buffers_do_not_matter(state: CheckState, buffers: Seq<Seq<u8>>)
    ensures
        state.after_all(buffers) == state.after(buffers.flatten()),
    decreases buffers.len(),
{
    if buffers.len() == 0 {
        assert(state.after(buffers.flatten()) =~= state);
    } else {
        buffers_do_not_matter(state, buffers.drop_last());
        buffers.lemma_flatten_and_flatten_alt_are_equivalent();
        buffers.drop_last().lemma_flatten_and_flatten_alt_are_equivalent();
        assert(state.after_all(buffers) =~= state.after(buffers.flatten()));
    }
}

/// A file passes if and only if each digest that was asked for is, in lower case, the digest
/// of its bytes; with none asked for, every file passes. Where both digests are wrong, it is
/// the SHA-256 digest that is reported.
pub proof fn passes_iff_all_digests_agree(state: CheckState)
    ensures
        state.outcome(by_lowercase()) is Ok <==> state.passes(),
        (state.outcome(by_lowercase()) matches Err(IntegrityError::Sha256Mismatch)) <==> (
        state.sha256 matches Some(e) && lower_hex(sha256(state.data)) != lowercase(e)),
        state.outcome(by_ascii_lower()) is Ok <==> {
            &&& state.sha256 matches Some(e) ==> all_ascii_lower(e) == lower_hex(sha256(state.data))
            &&& state.md5 matches Some(e) ==> all_ascii_lower(e) == lower_hex(md5(state.data))
        },
{
}

/// The case in which a digest is written does not matter.
pub proof fn case_of_digest_does_not_matter(digest: Seq<u8>, expected: Seq<char>)
    ensures
        agrees(Some(all_ascii_lower(expected)), lower_hex(digest), by_ascii_lower()) == agrees(
            Some(expected),
            lower_hex(digest),
            by_ascii_lower(),
        ),
        agrees(
            Some(crate::text::all_ascii_upper(expected)),
            lower_hex(digest),
            by_ascii_lower(),
        ) == agrees(Some(expected), lower_hex(digest), by_ascii_lower()),
{
    assert(all_ascii_lower(all_ascii_lower(expected)) =~= all_ascii_lower(expected));
    assert(all_ascii_lower(crate::text::all_ascii_upper(expected)) =~= all_ascii_lower(expected));
}

/// The value of a lower-case hexadecimal digit.
pub open spec fn hex_value(c: char) -> int {
    if '0' <= c <= '9' {
        c as int - '0' as int
    } else {
        c as int - 'a' as int + 10
    }
}

/// The hexadecimal text of bytes reads back as these bytes, two digits for each, the higher one
/// first; so no other bytes have it.
pub proof fn hex_reads_back(bytes: Seq<u8>, other: Seq<u8>)
    ensures
        lower_hex(bytes).len() == 2 * bytes.len(),
        forall|i: int|
            0 <= i < lower_hex(bytes).len() ==> {
                let c = #[trigger] lower_hex(bytes)[i];
                '0' <= c <= '9' || 'a' <= c <= 'f'
            },
        forall|i: int|
            0 <= i < bytes.len() ==> #[trigger] bytes[i] as int == 16 * hex_value(
                lower_hex(bytes)[2 * i],
            ) + hex_value(lower_hex(bytes)[2 * i + 1]),
        lower_hex(bytes) == lower_hex(other) ==> bytes == other,
{
    lemma_hex_reads_back(bytes);
    lemma_hex_reads_back(other);
    if lower_hex(bytes) == lower_hex(other) {
        assert(bytes.len() == other.len());
        assert forall|i: int| 0 <= i < bytes.len() implies bytes[i] == other[i] by {
            assert(bytes[i] as int == 16 * hex_value(lower_hex(bytes)[2 * i]) + hex_value(
                lower_hex(bytes)[2 * i + 1],
            ));
            assert(other[i] as int == 16 * hex_value(lower_hex(other)[2 * i]) + hex_value(
                lower_hex(other)[2 * i + 1],
            ));
        }
        assert(bytes =~= other);
    }
}

proof fn lemma_hex_reads_back(bytes: Seq<u8>)
    ensures
        lower_hex(bytes).len() == 2 * bytes.len(),
        forall|i: int|
            0 <= i < lower_hex(bytes).len() ==> {
                let c = #[trigger] lower_hex(bytes)[i];
                '0' <= c <= '9' || 'a' <= c <= 'f'
            },
        forall|i: int|
            0 <= i < bytes.len() ==> #[trigger] bytes[i] as int == 16 * hex_value(
                lower_hex(bytes)[2 * i],
            ) + hex_value(lower_hex(bytes)[2 * i + 1]),
{
    assert forall|i: int| 0 <= i < bytes.len() implies #[trigger] bytes[i] as int == 16 * hex_value(
        lower_hex(bytes)[2 * i],
    ) + hex_value(lower_hex(bytes)[2 * i + 1]) by {
        assert((2 * i) / 2 == i && (2 * i + 1) / 2 == i);
        assert((2 * i) % 2 == 0 && (2 * i + 1) % 2 == 1);
    }
}

/// What a check says of a file: the first digest that was asked for and is not, in lower case,
/// that of the bytes is reported, the SHA-256 digest before the MD5 digest; without such a
/// digest the file passes. The bytes are all that were read, in order.
pub proof fn check_compares_the_digests_of_all_bytes(state: CheckState, data: Seq<u8>)
    ensures
        state.after(data).data == state.data + data,
        state.after(data).sha256 == state.sha256,
        state.after(data).md5 == state.md5,
        ({
            let wrong_sha256 = state.sha256 matches Some(e) && lowercase(e) != lower_hex(
                sha256(state.data),
            );
            let wrong_md5 = state.md5 matches Some(e) && lowercase(e) != lower_hex(md5(state.data));
            &&& state.passes() <==> !wrong_sha256 && !wrong_md5
            &&& state.outcome(by_lowercase()) is Ok <==> !wrong_sha256 && !wrong_md5
            &&& wrong_sha256 ==> (state.outcome(by_lowercase()) matches Err(e) && e
                == IntegrityError::Sha256Mismatch)
            &&& !wrong_sha256 && wrong_md5 ==> (state.outcome(by_lowercase()) matches Err(e) && e
                == IntegrityError::Md5Mismatch)
        }),
{
}

/// Two digests agree in the eyes of `judge` if and only if they are the same in lower case; one
/// that was not asked for always agrees.
pub proof fn digests_agree_in_lower_case(
    sha256: Option<Seq<char>>,
    found_sha256: Seq<char>,
    md5: Option<Seq<char>>,
    found_md5: Seq<char>,
)
    ensures
        ({
            let r = verdict(
                sha256,
                lowercase(found_sha256),
                md5,
                lowercase(found_md5),
                by_lowercase(),
            );
            let sha256_fits = sha256 matches Some(e) ==> lowercase(e) == lowercase(found_sha256);
            let md5_fits = md5 matches Some(e) ==> lowercase(e) == lowercase(found_md5);
            &&& r is Ok <==> sha256_fits && md5_fits
            &&& !sha256_fits ==> (r matches Err(e) && e == IntegrityError::Sha256Mismatch)
            &&& sha256_fits && !md5_fits ==> (r matches Err(e) && e == IntegrityError::Md5Mismatch)
        }),
{
}

} // verus!
