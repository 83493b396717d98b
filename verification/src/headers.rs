//! The headers that go out with every request.
use vstd::prelude::*;
use vstd::string::*;
use vstd::utf8::*;
use reqwest::header::{HeaderMap, HeaderName, HeaderValue};
use crate::text::{
    all_ascii_lower, chars_of, find_first, first_of, first_of_is_the_first, opt_text, trim, trimmed,
};

verus! {

/// Why a header cannot be sent.
#[derive(Clone, Copy, Debug, PartialEq, Eq, Structural)]
pub enum HeaderError {
    InvalidName,
    InvalidValue,
    /// The table of headers is full.
    TooMany,
}

impl HeaderError {
    pub open spec fn text(self) -> Seq<char> {
        match self {
            HeaderError::InvalidName => "invalid HTTP header name"@,
            HeaderError::InvalidValue => "failed to parse header value"@,
            HeaderError::TooMany => "max size reached"@,
        }
    }

    pub fn message(&self) -> (r: String)
        ensures
            r@ == self.text(),
    {
        match self {
            HeaderError::InvalidName => "invalid HTTP header name".to_string(),
            HeaderError::InvalidValue => "failed to parse header value".to_string(),
            HeaderError::TooMany => "max size reached".to_string(),
        }
    }
}

/// Whether `c` may stand in the name of a header.
pub open spec fn is_name_char(c: char) -> bool {
    ||| 'a' <= c <= 'z'
    ||| 'A' <= c <= 'Z'
    ||| '0' <= c <= '9'
    ||| c == '!' || c == '#' || c == '$' || c == '%' || c == '&' || c == '\''
    ||| c == '*' || c == '+' || c == '-' || c == '.'
    ||| c == '^' || c == '_' || c == '`' || c == '|' || c == '~'
}

/// Whether `s` names a header.
pub open spec fn valid_name(s: Seq<char>) -> bool {
    &&& 0 < s.len() <= 65535
    &&& forall|i: int| 0 <= i < s.len() ==> is_name_char(#[trigger] s[i])
}

/// Whether `bytes` can be the value of a header: no control characters but tabs.
pub open spec fn valid_value(bytes: Seq<u8>) -> bool {
    forall|i: int|
        0 <= i < bytes.len() ==> (#[trigger] bytes[i] >= 32 && bytes[i] != 127) || bytes[i] == 9
}

/// `reqwest::header::HeaderMap`, whose contents are named by `header_entries`.
#[verifier::external_type_specification]
#[verifier::external_body]
#[verifier::reject_recursive_types(T)]
pub struct ExHeaderMap<T>(reqwest::header::HeaderMap<T>);

/// `reqwest::header::HeaderValue`, the values in a `HeaderMap`.
#[verifier::external_type_specification]
#[verifier::external_body]
pub struct ExHeaderValue(reqwest::header::HeaderValue);

/// `reqwest::header::InvalidHeaderName`, which tells nothing but that a name is bad.
#[verifier::external_type_specification]
#[verifier::external_body]
pub struct ExInvalidHeaderName(reqwest::header::InvalidHeaderName);

/// `reqwest::header::InvalidHeaderValue`, which tells nothing but that a value is bad.
#[verifier::external_type_specification]
#[verifier::external_body]
pub struct ExInvalidHeaderValue(reqwest::header::InvalidHeaderValue);

/// `reqwest::header::MaxSizeReached`, which tells nothing but that a table is full.
#[verifier::external_type_specification]
#[verifier::external_body]
pub struct ExMaxSizeReached(reqwest::header::MaxSizeReached);

/// The headers in a table, by name, with the bytes of their values.
pub type Entries = Map<Seq<char>, Seq<u8>>;

pub open spec fn no_headers() -> Entries {
    Map::empty()
}

/// What a list of headers comes to: the headers, or what is wrong with the list.
pub type Table = Result<Entries, HeaderError>;

/// The headers in a table: for each name, in lower case, the bytes of its value.
pub uninterp spec fn header_entries(map: HeaderMap<HeaderValue>) -> Entries;

/// As long as a table holds no more headers than this, it has room for another.
pub open spec fn roomy() -> nat {
    6553
}

/// Calls `HeaderMap::new`: a table without headers.
#[verifier::external_body]
pub(crate) fn empty_table() -> (map: HeaderMap<HeaderValue>)
    ensures
        header_entries(map) == no_headers(),
{
    HeaderMap::new()
}

/// Calls `HeaderName::from_bytes`: it accepts the texts that name a header, and puts
/// their letters in lower case.
#[verifier::external_body]
fn header_name(s: &str) -> (r: Result<String, reqwest::header::InvalidHeaderName>)
    ensures
        match r {
            Ok(name) => valid_name(s@) && name@ == all_ascii_lower(s@),
            Err(_) => !valid_name(s@),
        },
{
    match HeaderName::from_bytes(s.as_bytes()) {
        Ok(name) => Ok(name.as_str().to_string()),
        Err(e) => Err(e),
    }
}

/// Calls `HeaderValue::from_str`: it accepts the texts whose bytes can be the value of
/// a header, and keeps these bytes.
#[verifier::external_body]
fn header_value(s: &str) -> (r: Result<Vec<u8>, reqwest::header::InvalidHeaderValue>)
    ensures
        match r {
            Ok(bytes) => valid_value(encode_utf8(s@)) && bytes@ == encode_utf8(s@),
            Err(_) => !valid_value(encode_utf8(s@)),
        },
{
    match HeaderValue::from_str(s) {
        Ok(value) => Ok(value.as_bytes().to_vec()),
        Err(e) => Err(e),
    }
}

/// Calls `HeaderMap::try_insert`: afterwards the name, which is in lower case, has this
/// value alone, and the other names have theirs. A table that is full stays as it is;
/// when that happens depends on how the names hash, but not while the table is roomy.
#[verifier::external_body]
fn insert_header(map: &mut HeaderMap<HeaderValue>, name: &str, value: &Vec<u8>) -> (r: Result<
    (),
    reqwest::header::MaxSizeReached,
>)
    requires
        valid_name(name@),
        name@ == all_ascii_lower(name@),
        valid_value(value@),
    ensures
        header_entries(*old(map)).dom().finite() && header_entries(*old(map)).dom().len()
            <= roomy() ==> r is Ok,
        header_entries(*final(map)) == if r is Ok {
            header_entries(*old(map)).insert(name@, value@)
        } else {
            header_entries(*old(map))
        },
{
    let name = HeaderName::from_bytes(name.as_bytes()).unwrap();
    let value = HeaderValue::from_bytes(value).unwrap();
    match map.try_insert(name, value) {
        Ok(_) => Ok(()),
        Err(e) => Err(e),
    }
}

/// A table of headers to which one more is added.
pub open spec fn with_header(
    table: Table,
    name: Seq<char>,
    value: Seq<char>,
) -> Table {
    match table {
        Err(e) => Err(e),
        Ok(entries) => if !valid_name(name) {
            Err(HeaderError::InvalidName)
        } else if !valid_value(encode_utf8(value)) {
            Err(HeaderError::InvalidValue)
        } else {
            Ok(entries.insert(all_ascii_lower(name), encode_utf8(value)))
        },
    }
}

/// The name before the first colon of a line and the value behind it.
pub open spec fn split_line(line: Seq<char>) -> Option<(Seq<char>, Seq<char>)> {
    let colon = first_of(line, ':');
    if colon < line.len() {
        Some((trimmed(line.take(colon)), trimmed(line.skip(colon + 1))))
    } else {
        None
    }
}

/// The headers that a list of lines `name: value` gives, or the first error in it.
/// Lines without a colon count for nothing.
pub open spec fn custom_table(lines: Seq<Seq<char>>) -> Table
    decreases lines.len(),
{
    if lines.len() == 0 {
        Ok(Map::empty())
    } else {
        let table = custom_table(lines.drop_last());
        match split_line(lines.last()) {
            Some((name, value)) => with_header(table, name, value),
            None => table,
        }
    }
}

pub open spec fn with_optional(
    table: Table,
    name: Seq<char>,
    value: Option<Seq<char>>,
) -> Table {
    match value {
        Some(v) => with_header(table, name, v),
        None => table,
    }
}

/// The headers of every request: the custom lines, then the cookie, then the referer.
pub open spec fn request_table(
    lines: Seq<Seq<char>>,
    cookie: Option<Seq<char>>,
    referer: Option<Seq<char>>,
) -> Table {
    with_optional(with_optional(custom_table(lines), "cookie"@, cookie), "referer"@, referer)
}

/// A table that has no certain room for another header.
pub open spec fn crowded(table: Table) -> bool {
    table matches Ok(entries) && entries.dom().len() > roomy()
}

/// Line number `n` is a header in order, but it goes into a crowded table.
pub open spec fn line_is_squeezed_in(lines: Seq<Seq<char>>, n: int) -> bool {
    &&& 0 <= n < lines.len()
    &&& split_line(lines[n]) is Some
    &&& crowded(custom_table(lines.take(n)))
    &&& custom_table(lines.take(n + 1)) is Ok
}

/// A header in order goes into a crowded table, so that the table may turn out to be full.
pub open spec fn may_fill_up(
    lines: Seq<Seq<char>>,
    cookie: Option<Seq<char>>,
    referer: Option<Seq<char>>,
) -> bool {
    ||| exists|n: int| #[trigger] line_is_squeezed_in(lines, n)
    ||| {
        &&& cookie matches Some(c) && valid_value(encode_utf8(c))
        &&& crowded(custom_table(lines))
    }
    ||| {
        &&& referer matches Some(r) && valid_value(encode_utf8(r))
        &&& crowded(with_optional(custom_table(lines), "cookie"@, cookie))
    }
}

/// Adds one header to a table.
fn add_header(map: &mut HeaderMap<HeaderValue>, name: &str, value: &str) -> (r: Result<
    (),
    HeaderError,
>)
    requires
        header_entries(*old(map)).dom().finite(),
    ensures
        header_entries(*final(map)).dom().finite(),
        match r {
            Ok(()) => with_header(Ok(header_entries(*old(map))), name@, value@) == Table::Ok(header_entries(*final(map))),
            Err(HeaderError::TooMany) => crowded(Ok(header_entries(*old(map)))) && with_header(
                Ok(header_entries(*old(map))),
                name@,
                value@,
            ) is Ok,
            Err(e) => with_header(Ok(header_entries(*old(map))), name@, value@) == Table::Err(e),
        },
{
    let name = match header_name(name) {
        Ok(name) => name,
        Err(_) => {
            return Err(HeaderError::InvalidName);
        },
    };
    let value = match header_value(value) {
        Ok(value) => value,
        Err(_) => {
            return Err(HeaderError::InvalidValue);
        },
    };
    assert(all_ascii_lower(name@) =~= name@);
    match insert_header(map, name.as_str(), &value) {
        Ok(()) => Ok(()),
        Err(_) => Err(HeaderError::TooMany),
    }
}

/// The table of headers for every request.
pub fn request_headers(
    custom_headers: &Vec<String>,
    cookie: &Option<String>,
    referer: &Option<String>,
) -> (r: Result<HeaderMap<HeaderValue>, HeaderError>)
    ensures
        match r {
            Ok(map) => request_table(
                custom_headers.deep_view(),
                opt_text(*cookie),
                opt_text(*referer),
            ) == Table::Ok(header_entries(map)),
            Err(HeaderError::TooMany) => may_fill_up(
                custom_headers.deep_view(),
                opt_text(*cookie),
                opt_text(*referer),
            ),
            Err(e) => request_table(
                custom_headers.deep_view(),
                opt_text(*cookie),
                opt_text(*referer),
            ) == Table::Err(e),
        },
{
    let mut map = empty_table();
    let ghost lines = custom_headers.deep_view();
    let mut i: usize = 0;
    assert(lines.take(0) =~= Seq::empty());
    while i < custom_headers.len()
        invariant
            i <= custom_headers.len(),
            lines == custom_headers.deep_view(),
            lines.len() == custom_headers.len(),
            header_entries(map).dom().finite(),
            custom_table(lines.take(i as int)) == Table::Ok(
                header_entries(map),
            ),
        decreases custom_headers.len() - i,
    {
        let line = custom_headers[i].as_str();
        let chars = chars_of(line);
        let colon: usize = find_first(&chars, ':');
        proof {
            assert(lines.take(i + 1).drop_last() =~= lines.take(i as int));
            assert(lines.take(i + 1).last() == line@);
        }
        if colon < chars.len() {
            let name = trim(line.substring_char(0, colon));
            let value = trim(line.substring_char(colon + 1, chars.len()));
            proof {
                assert(line@.subrange(0, colon as int) =~= line@.take(colon as int));
                assert(line@.subrange(colon + 1, line@.len() as int) =~= line@.skip(colon + 1));
            }
            match add_header(&mut map, name, value) {
                Ok(()) => {},
                Err(e) => {
                    proof {
                        lemma_error_stays(lines, i + 1, opt_text(*cookie), opt_text(*referer));
                        assert(e == HeaderError::TooMany ==> line_is_squeezed_in(lines, i as int));
                    }
                    return Err(e);
                },
            }
        }
        i = i + 1;
    }
    assert(lines.take(lines.len() as int) =~= lines);
    proof {
        lemma_error_stays(lines, lines.len() as int, opt_text(*cookie), opt_text(*referer));
    }
    match cookie {
        Some(c) => {
            match add_header(&mut map, "cookie", c.as_str()) {
                Ok(()) => {},
                Err(e) => {
                    return Err(e);
                },
            }
        },
        None => {},
    }
    match referer {
        Some(r) => {
            match add_header(&mut map, "referer", r.as_str()) {
                Ok(()) => {},
                Err(e) => {
                    return Err(e);
                },
            }
        },
        None => {},
    }
    Ok(map)
}

/// An error in the first lines is the error of the whole.
proof fn lemma_error_stays(
    lines: Seq<Seq<char>>,
    n: int,
    cookie: Option<Seq<char>>,
    referer: Option<Seq<char>>,
)
    requires
        0 <= n <= lines.len(),
    ensures
        custom_table(lines.take(n)) matches Err(e) ==> custom_table(lines) == Table::Err(e) && request_table(lines, cookie, referer) == Table::Err(e),
    decreases lines.len(),
{
    if n == lines.len() {
        assert(lines.take(n) =~= lines);
    } else {
        lemma_error_stays(lines.drop_last(), n, cookie, referer);
        assert(lines.drop_last().take(n) =~= lines.take(n));
    }
}

/// The headers of the first lines are among those of the whole, and no more than the lines.
proof fn lemma_table_grows(lines: Seq<Seq<char>>, n: int)
    requires
        0 <= n <= lines.len(),
        custom_table(lines) is Ok,
    ensures
        custom_table(lines.take(n)) is Ok,
        custom_table(lines)->Ok_0.dom().finite(),
        custom_table(lines)->Ok_0.dom().len() <= lines.len(),
        custom_table(lines.take(n))->Ok_0.dom().subset_of(custom_table(lines)->Ok_0.dom()),
    decreases lines.len(),
{
    if n == lines.len() {
        assert(lines.take(n) =~= lines);
        if n > 0 {
            lemma_table_grows(lines.drop_last(), n - 1);
        }
    } else {
        lemma_table_grows(lines.drop_last(), n);
        assert(lines.drop_last().take(n) =~= lines.take(n));
    }
}

/// A table that has not more than 6553 headers in the end never turns out to be full, however
/// many lines there are: a header that is given again takes no more room.
pub proof fn few_headers_always_fit(
    lines: Seq<Seq<char>>,
    cookie: Option<Seq<char>>,
    referer: Option<Seq<char>>,
)
    requires
        request_table(lines, cookie, referer) matches Ok(entries) && entries.dom().len() <= 6553,
    ensures
        !may_fill_up(lines, cookie, referer),
{
    let table = custom_table(lines);
    let with_cookie = with_optional(table, "cookie"@, cookie);
    let all = request_table(lines, cookie, referer);
    assert(table is Ok && with_cookie is Ok);
    lemma_table_grows(lines, 0);
    vstd::set_lib::lemma_len_subset(table->Ok_0.dom(), with_cookie->Ok_0.dom());
    vstd::set_lib::lemma_len_subset(with_cookie->Ok_0.dom(), all->Ok_0.dom());
    assert forall|n: int| !(#[trigger] line_is_squeezed_in(lines, n)) by {
        if 0 <= n < lines.len() {
            lemma_table_grows(lines, n);
            vstd::set_lib::lemma_len_subset(
                custom_table(lines.take(n))->Ok_0.dom(),
                table->Ok_0.dom(),
            );
        }
    }
}

/// A list of not more than 6551 lines never turns out to be too long, whatever is in it.
pub proof fn short_lists_always_fit(
    lines: Seq<Seq<char>>,
    cookie: Option<Seq<char>>,
    referer: Option<Seq<char>>,
)
    requires
        lines.len() <= 6551,
    ensures
        !may_fill_up(lines, cookie, referer),
{
    assert forall|n: int| 0 <= n <= lines.len() implies !crowded(
        custom_table(#[trigger] lines.take(n)),
    ) by {
        if custom_table(lines.take(n)) is Ok {
            lemma_table_grows(lines.take(n), n);
        }
    }
    assert(lines.take(lines.len() as int) =~= lines);
    if custom_table(lines) is Ok {
        lemma_table_grows(lines, 0);
    }
}

/// A header that is given again replaces the earlier one, whatever the case of the
/// letters in its name, and leaves all others alone.
pub proof fn later_header_wins(
    table: Entries,
    name: Seq<char>,
    value: Seq<char>,
    other: Seq<char>,
)
    requires
        valid_name(name),
        valid_value(encode_utf8(value)),
    ensures
        with_header(Ok(table), name, value) matches Ok(entries) && {
            &&& entries.contains_key(all_ascii_lower(name))
            &&& entries[all_ascii_lower(name)] == encode_utf8(value)
            &&& other != all_ascii_lower(name) ==> {
                &&& entries.contains_key(other) == table.contains_key(other)
                &&& table.contains_key(other) ==> entries[other] == table[other]
            }
        },
        with_header(Ok(table), all_ascii_lower(name), value) == with_header(
            Ok(table),
            name,
            value,
        ),
{
    let lower = all_ascii_lower(name);
    assert(all_ascii_lower(lower) =~= lower);
    assert forall|i: int| 0 <= i < lower.len() implies is_name_char(#[trigger] lower[i]) by {
        assert(is_name_char(name[i]));
    }
}

/// A line without a colon changes nothing.
pub proof fn line_without_colon_is_ignored(lines: Seq<Seq<char>>, line: Seq<char>)
    requires
        !line.contains(':'),
    ensures
        custom_table(lines.push(line)) == custom_table(lines),
{
    lemma_first_of_absent(line, ':');
    assert(lines.push(line).drop_last() =~= lines);
}

proof fn lemma_first_of_absent(s: Seq<char>, c: char)
    requires
        !s.contains(c),
    ensures
        first_of(s, c) == s.len(),
    decreases s.len(),
{
    if s.len() > 0 {
        assert(s.contains(s[0]));
        assert forall|i: int| 0 <= i < s.drop_first().len() implies s.drop_first()[i] != c by {
            assert(s.contains(s[i + 1]));
        }
        lemma_first_of_absent(s.drop_first(), c);
    }
}

/// The cookie and the referer that are given as such take precedence over custom lines.
pub proof fn cookie_and_referer_win(lines: Seq<Seq<char>>, cookie: Seq<char>, referer: Seq<char>)
    requires
        request_table(lines, Some(cookie), Some(referer)) is Ok,
    ensures
        request_table(lines, Some(cookie), Some(referer))->Ok_0["cookie"@] == encode_utf8(cookie),
        request_table(lines, Some(cookie), Some(referer))->Ok_0["referer"@] == encode_utf8(referer),
        request_table(lines, Some(cookie), Some(referer))->Ok_0.contains_key("cookie"@),
        request_table(lines, Some(cookie), Some(referer))->Ok_0.contains_key("referer"@),
{
    reveal_strlit("cookie");
    reveal_strlit("referer");
    assert(all_ascii_lower("cookie"@) =~= "cookie"@);
    assert(all_ascii_lower("referer"@) =~= "referer"@);
    assert("cookie"@.len() != "referer"@.len());
}

/// A line is a header: what stands before its first colon is the name and what stands behind it
/// the value, both without the white space around them. A bad name or value is an error, and an
/// error in the lines before stays.
pub proof fn line_adds_its_header(lines: Seq<Seq<char>>, name: Seq<char>, value: Seq<char>)
    requires
        !name.contains(':'),
    ensures
        ({
            let next = custom_table(lines.push(name.push(':') + value));
            match custom_table(lines) {
                Err(e) => next == Table::Err(e),
                Ok(entries) => if !valid_name(trimmed(name)) {
                    next == Table::Err(HeaderError::InvalidName)
                } else if !valid_value(encode_utf8(trimmed(value))) {
                    next == Table::Err(HeaderError::InvalidValue)
                } else {
                    next == Table::Ok(
                        entries.insert(
                            all_ascii_lower(trimmed(name)),
                            encode_utf8(trimmed(value)),
                        ),
                    )
                },
            }
        }),
        custom_table(Seq::empty()) == Table::Ok(Map::empty()),
{
    let line = name.push(':') + value;
    assert(lines.push(line).drop_last() =~= lines);
    first_of_is_the_first(line, ':');
    assert(line[name.len() as int] == ':');
    assert forall|i: int| 0 <= i < name.len() implies line[i] != ':' by {
        assert(name.contains(name[i]));
    }
    assert(first_of(line, ':') == name.len());
    assert(line.take(name.len() as int) =~= name);
    assert(line.skip(name.len() as int + 1) =~= value);
}

/// The cookie and the referer are added under their names, with the values that were given,
/// untrimmed; where none was given, nothing is added.
pub proof fn cookie_and_referer_are_sent_as_given(
    lines: Seq<Seq<char>>,
    cookie: Seq<char>,
    referer: Seq<char>,
)
    ensures
        request_table(lines, None, None) == custom_table(lines),
        custom_table(lines) matches Err(e) ==> request_table(lines, Some(cookie), Some(referer))
            == Table::Err(e) && request_table(lines, None, Some(referer)) == Table::Err(e),
        custom_table(lines) matches Ok(entries) ==> {
            let cookie_sent = entries.insert("cookie"@, encode_utf8(cookie));
            &&& !valid_value(encode_utf8(cookie)) ==> request_table(lines, Some(cookie), None)
                == Table::Err(HeaderError::InvalidValue) && request_table(
                lines,
                Some(cookie),
                Some(referer),
            ) == Table::Err(HeaderError::InvalidValue)
            &&& !valid_value(encode_utf8(referer)) ==> request_table(lines, None, Some(referer))
                == Table::Err(HeaderError::InvalidValue) && request_table(
                lines,
                Some(cookie),
                Some(referer),
            ) == Table::Err(HeaderError::InvalidValue)
            &&& valid_value(encode_utf8(cookie)) ==> request_table(lines, Some(cookie), None)
                == Table::Ok(cookie_sent)
            &&& valid_value(encode_utf8(referer)) ==> request_table(lines, None, Some(referer))
                == Table::Ok(entries.insert("referer"@, encode_utf8(referer)))
            &&& valid_value(encode_utf8(cookie)) && valid_value(encode_utf8(referer))
                ==> request_table(lines, Some(cookie), Some(referer)) == Table::Ok(
                cookie_sent.insert("referer"@, encode_utf8(referer)),
            )
        },
{
    reveal_strlit("cookie");
    reveal_strlit("referer");
    assert(all_ascii_lower("cookie"@) =~= "cookie"@);
    assert(all_ascii_lower("referer"@) =~= "referer"@);
    assert(valid_name("cookie"@));
    assert(valid_name("referer"@));
}

/// The name of a header is made of visible ASCII characters that are no delimiters.
pub proof fn names_have_no_delimiters(s: Seq<char>, c: char)
    ensures
        is_name_char(c) <==> {
            &&& '!' <= c <= '~'
            &&& c != '"' && c != '(' && c != ')' && c != ',' && c != '/' && c != ':' && c != ';'
            &&& c != '<' && c != '=' && c != '>' && c != '?' && c != '@' && c != '[' && c != '\\'
            &&& c != ']' && c != '{' && c != '}'
        },
        valid_name(s) <==> 1 <= s.len() <= 65535 && forall|i: int|
            0 <= i < s.len() ==> is_name_char(#[trigger] s[i]),
{
}

/// A value is refused if and only if it has a control character that is no tab.
pub proof fn values_have_no_control_characters(bytes: Seq<u8>)
    ensures
        !valid_value(bytes) <==> exists|i: int|
            0 <= i < bytes.len() && ((#[trigger] bytes[i] <= 31 && bytes[i] != 9) || bytes[i]
                == 127),
{
}

/// What is wrong with a header is told in these words.
pub proof fn header_errors_read_so(e: HeaderError)
    ensures
        e.text() == match e {
            HeaderError::InvalidName => "invalid HTTP header name"@,
            HeaderError::InvalidValue => "failed to parse header value"@,
            HeaderError::TooMany => "max size reached"@,
        },
{
}

} // verus!
