//! Setting up a download: where it goes, what it asks for, and the tools that help.
use vstd::prelude::*;
use vstd::string::*;
use vstd::utf8::*;
use reqwest::header::{HeaderMap, HeaderValue};
use crate::chunk::{partition, pieces, Chunk};
use crate::headers::{
    header_entries, may_fill_up, no_headers, request_headers, request_table, HeaderError, Table,
};
use crate::pool::AUTO_START;
use crate::rate::{
    is_usable, limit_cells, parse_rate, rate_limit, rate_value, second_limit, second_quota, usable,
    RateError, RateLimit,
};
use crate::text::{
    after_last, all_ascii_upper, contains, has_part, last_part_follows_the_last_separator, opt_text,
    parts_stand_between_others, split_by, to_uppercase, trim, trimmed, uppercase,
};

verus! {

/// Why a download cannot be set up.
#[derive(Debug)]
pub enum SetupError {
    Url(url::ParseError),
    Header(HeaderError),
    Rate(RateError),
}

impl SetupError {
    pub open spec fn text(self) -> Seq<char> {
        match self {
            SetupError::Url(_) => "Failed to parse URL"@,
            SetupError::Header(e) => e.text(),
            SetupError::Rate(_) => "Invalid rate number"@,
        }
    }

    pub fn message(&self) -> (r: String)
        ensures
            r@ == self.text(),
    {
        match self {
            SetupError::Url(_) => "Failed to parse URL".to_string(),
            SetupError::Header(e) => e.message(),
            SetupError::Rate(e) => e.message(),
        }
    }
}

/// `url::ParseError`, carried through and never looked into.
#[verifier::external_type_specification]
#[verifier::external_body]
pub struct ExParseError(url::ParseError);

/// `url::Url`, whose path is named by `url_path`.
#[verifier::external_type_specification]
#[verifier::external_body]
pub struct ExUrl(url::Url);

/// The URL that a text writes, or why it writes none.
pub uninterp spec fn parsed_url(text: Seq<char>) -> Result<url::Url, url::ParseError>;

/// The path of a URL, as `Url::path` gives it.
pub uninterp spec fn url_path(url: url::Url) -> Seq<char>;

/// Calls `Url::parse`. The result is named.
#[verifier::external_body]
fn parse_url(text: &str) -> (r: Result<url::Url, url::ParseError>)
    ensures
        r == parsed_url(text@),
{
    url::Url::parse(text)
}

/// The texts in an optional list.
pub open spec fn opt_texts(list: Option<Vec<String>>) -> Option<Seq<Seq<char>>> {
    match list {
        Some(texts) => Some(texts.deep_view()),
        None => None,
    }
}

/// The segments of a path: what its slashes separate, if it begins with one.
pub open spec fn path_segments(path: Seq<char>) -> Option<Seq<Seq<char>>> {
    if path.len() > 0 && path.first() == '/' {
        Some(split_by(path.drop_first(), '/'))
    } else {
        None
    }
}

/// Calls `Url::path_segments`: where the path of the URL begins with a slash, the parts into
/// which the further slashes divide the rest of it, and nothing otherwise.
#[verifier::external_body]
fn segments_of(url: &url::Url) -> (r: Option<Vec<String>>)
    ensures
        opt_texts(r) == path_segments(url_path(*url)),
{
    match url.path_segments() {
        Some(segments) => Some(segments.map(String::from).collect()),
        None => None,
    }
}

/// The segments of the path of the URL that a text writes, or why it writes none.
pub open spec fn url_segments(text: Seq<char>) -> Result<
    Option<Seq<Seq<char>>>,
    url::ParseError,
> {
    match parsed_url(text) {
        Ok(url) => Ok(path_segments(url_path(url))),
        Err(e) => Err(e),
    }
}

/// Whether an address belongs to a platform whose videos are fetched by `yt-dlp`.
pub open spec fn is_video_platform(url: Seq<char>) -> bool {
    ||| has_part(url, "youtube.com"@)
    ||| has_part(url, "youtu.be"@)
    ||| has_part(url, "facebook.com"@)
    ||| has_part(url, "instagram.com"@)
    ||| has_part(url, "tiktok.com"@)
}

/// Whether an address belongs to a platform whose videos are fetched by `yt-dlp`.
pub fn video_platform(url: &str) -> (r: bool)
    ensures
        r == is_video_platform(url@),
{
    contains(url, "youtube.com") || contains(url, "youtu.be") || contains(url, "facebook.com")
        || contains(url, "instagram.com") || contains(url, "tiktok.com")
}

/// The name of the file that a URL with these segments leads to: the last segment, unless
/// it is empty.
pub open spec fn file_name(segments: Option<Seq<Seq<char>>>) -> Seq<char> {
    match segments {
        Some(s) => if s.len() > 0 && s.last().len() > 0 {
            s.last()
        } else {
            "download"@
        },
        None => "download"@,
    }
}

/// The name of the file that a URL with these segments leads to.
pub fn detected_filename(segments: &Option<Vec<String>>) -> (r: String)
    ensures
        r@ == file_name(opt_texts(*segments)),
{
    if let Some(s) = segments {
        if s.len() > 0 {
            let last = &s[s.len() - 1];
            if !last.as_str().is_empty() {
                return last.clone();
            }
        }
    }
    "download".to_string()
}

/// A file is named after what follows the last slash in the path of its URL; where nothing
/// follows, or the path begins with no slash, it is called `download`. A name is never empty
/// and never holds a slash.
pub proof fn file_is_named_after_the_last_slash(path: Seq<char>)
    ensures
        file_name(path_segments(path)) == if path.len() > 0 && path.first() == '/'
            && after_last(path, '/').len() > 0 {
            after_last(path, '/')
        } else {
            "download"@
        },
        file_name(path_segments(path)).len() > 0,
        !file_name(path_segments(path)).contains('/'),
{
    reveal_strlit("download");
    if path.len() > 0 && path.first() == '/' {
        last_part_follows_the_last_separator(path.drop_first(), '/');
        lemma_after_last_of_rest(path, '/');
    }
}

/// Where a text begins with `c`, what follows the last one is found in the rest of the text.
proof fn lemma_after_last_of_rest(s: Seq<char>, c: char)
    requires
        s.len() > 0,
        s.first() == c,
    ensures
        after_last(s, c) == after_last(s.drop_first(), c),
    decreases s.len(),
{
    let rest = s.drop_first();
    if s.len() > 1 && s.last() != c {
        lemma_after_last_of_rest(s.drop_last(), c);
        assert(s.drop_last().drop_first() =~= rest.drop_last());
        assert(rest.last() == s.last());
    }
}

/// Where a download goes: to the output that was asked for, or else to a file named after
/// the URL.
pub open spec fn output_path(url: Seq<char>, output: Option<Seq<char>>) -> Seq<char> {
    match output {
        Some(path) => path,
        None => file_name(url_segments(url)->Ok_0),
    }
}

/// Where a download goes, if its address is a URL.
pub fn output_of(url: &str, output: &Option<String>) -> (r: Result<String, SetupError>)
    ensures
        match r {
            Ok(path) => url_segments(url@) is Ok && path@ == output_path(url@, opt_text(*output))
                && (*output is None ==> path@.len() > 0 && !path@.contains('/')),
            Err(SetupError::Url(e)) => url_segments(url@) == Err::<
                Option<Seq<Seq<char>>>,
                url::ParseError,
            >(e),
            Err(_) => false,
        },
{
    match parse_url(url) {
        Ok(parsed) => {
            let segments = segments_of(&parsed);
            match output {
                Some(path) => Ok(path.clone()),
                None => {
                    proof {
                        file_is_named_after_the_last_slash(url_path(parsed));
                    }
                    Ok(detected_filename(&segments))
                },
            }
        },
        Err(e) => Err(SetupError::Url(e)),
    }
}

/// A program to run, with its arguments.
pub struct ToolCommand {
    pub program: String,
    pub args: Vec<String>,
}

impl ToolCommand {
    /// This runs `program` with these arguments.
    pub open spec fn runs(self, program: Seq<char>, args: Seq<Seq<char>>) -> bool {
        &&& self.program@ == program
        &&& self.args.deep_view() == args
    }

    fn new(program: &str) -> (c: ToolCommand)
        ensures
            c.runs(program@, Seq::empty()),
    {
        let c = ToolCommand { program: program.to_string(), args: Vec::new() };
        assert(c.args.deep_view() =~= Seq::empty());
        c
    }

    fn arg(&mut self, arg: &str)
        ensures
            final(self).runs(old(self).program@, old(self).args.deep_view().push(arg@)),
    {
        self.args.push(arg.to_string());
        assert(self.args.deep_view() =~= old(self).args.deep_view().push(arg@));
    }
}

pub open spec fn or_text(s: Option<Seq<char>>, default: Seq<char>) -> Seq<char> {
    match s {
        Some(t) => t,
        None => default,
    }
}

/// The arguments with which `yt-dlp` fetches a video.
pub open spec fn video_args(
    url: Seq<char>,
    path: Seq<char>,
    format_spec: Option<Seq<char>>,
    cookie_path: Option<Seq<char>>,
) -> Seq<Seq<char>> {
    let cookies = match cookie_path {
        Some(cookies) => seq!["--cookies"@, cookies],
        None => seq!["--cookies-from-browser"@, "chrome"@],
    };
    seq!["-f"@, or_text(format_spec, "bestvideo+bestaudio/best"@), "-o"@, path, url] + cookies
}

/// The program that fetches the video, if the address belongs to a video platform.
pub fn video_command(
    url: &str,
    output: &Option<String>,
    format_spec: &Option<String>,
    cookie_path: &Option<String>,
) -> (r: Result<Option<ToolCommand>, SetupError>)
    ensures
        match r {
            Ok(Some(command)) => url_segments(url@) is Ok && is_video_platform(url@) && command.runs(
                "yt-dlp"@,
                video_args(
                    url@,
                    output_path(url@, opt_text(*output)),
                    opt_text(*format_spec),
                    opt_text(*cookie_path),
                ),
            ),
            Ok(None) => url_segments(url@) is Ok && !is_video_platform(url@),
            Err(SetupError::Url(e)) => url_segments(url@) == Err::<
                Option<Seq<Seq<char>>>,
                url::ParseError,
            >(e),
            Err(_) => false,
        },
{
    let path = match output_of(url, output) {
        Ok(path) => path,
        Err(e) => {
            return Err(e);
        },
    };
    if !video_platform(url) {
        return Ok(None);
    }
    let mut command = ToolCommand::new("yt-dlp");
    command.arg("-f");
    match format_spec {
        Some(f) => command.arg(f.as_str()),
        None => command.arg("bestvideo+bestaudio/best"),
    }
    command.arg("-o");
    command.arg(path.as_str());
    command.arg(url);
    match cookie_path {
        Some(cookies) => {
            command.arg("--cookies");
            command.arg(cookies.as_str());
        },
        None => {
            command.arg("--cookies-from-browser");
            command.arg("chrome");
        },
    }
    assert(command.args.deep_view() =~= video_args(
        url@,
        path@,
        opt_text(*format_spec),
        opt_text(*cookie_path),
    ));
    Ok(Some(command))
}

/// How to set up the HTTP client.
#[derive(Clone, Copy, Debug, PartialEq, Eq, Structural)]
pub struct ClientSettings {
    /// How many idle connections to keep for each host.
    pub pool_size: usize,
    /// Whether invalid certificates are accepted.
    pub insecure: bool,
}

pub open spec fn settings(
    concurrency: usize,
    insecure: bool,
    auto_concurrency: bool,
) -> ClientSettings {
    ClientSettings {
        pool_size: if auto_concurrency {
            128
        } else if concurrency >= 32 {
            concurrency
        } else {
            32
        },
        insecure,
    }
}

/// How to set up the HTTP client: its pool has room for all workers.
pub fn client_settings(concurrency: usize, insecure: bool, auto_concurrency: bool) -> (r:
    ClientSettings)
    ensures
        r == settings(concurrency, insecure, auto_concurrency),
{
    let pool_size: usize = if auto_concurrency {
        128
    } else if concurrency >= 32 {
        concurrency
    } else {
        32
    };
    ClientSettings { pool_size, insecure }
}

/// The client keeps a connection for each worker that a download can have.
pub proof fn pool_has_room_for_all_workers(
    concurrency: usize,
    insecure: bool,
    auto_concurrency: bool,
)
    ensures
        auto_concurrency ==> settings(concurrency, insecure, auto_concurrency).pool_size
            >= crate::pool::AUTO_MAX,
        !auto_concurrency ==> settings(concurrency, insecure, auto_concurrency).pool_size
            >= concurrency,
{
}

/// One file to fetch.
pub struct DownloadTarget {
    pub url: String,
    pub path: String,
}

/// A download that was set up.
pub struct Downloader {
    pub url: String,
    pub targets: Vec<DownloadTarget>,
    pub concurrency: usize,
    /// The client to use; none is needed where another program did the work.
    pub client: Option<ClientSettings>,
    pub headers: HeaderMap<HeaderValue>,
    pub final_output: String,
    /// Another program has already fetched the file.
    pub handled_by_fallback: bool,
    pub sha256: Option<String>,
    pub md5: Option<String>,
    pub limiter: Option<RateLimit>,
    pub auto_concurrency: bool,
}

/// What a download is set up from.
pub struct Setup {
    pub url: Seq<char>,
    pub output: Option<Seq<char>>,
    pub concurrency: usize,
    pub insecure: bool,
    pub custom_headers: Seq<Seq<char>>,
    pub cookie: Option<Seq<char>>,
    pub referer: Option<Seq<char>>,
    pub sha256: Option<Seq<char>>,
    pub md5: Option<Seq<char>>,
    pub limit_rate: Option<Seq<char>>,
    pub auto_concurrency: bool,
    pub fetched: bool,
}

impl Setup {
    /// Another program has already fetched the file.
    pub open spec fn handled(self) -> bool {
        is_video_platform(self.url) && self.fetched
    }

    pub open spec fn table(self) -> Table {
        request_table(self.custom_headers, self.cookie, self.referer)
    }

    /// There are so many headers that their table may turn out to be full.
    pub open spec fn table_may_fill_up(self) -> bool {
        may_fill_up(self.custom_headers, self.cookie, self.referer)
    }

    /// All is well up to the bandwidth limit.
    pub open spec fn reaches_limit(self) -> bool {
        url_segments(self.url) is Ok && !self.handled() && self.table() is Ok
    }

    /// The limiter can work with the bandwidth limit, where there is one.
    pub open spec fn limit_usable(self, upper: spec_fn(Seq<char>) -> Seq<char>) -> bool {
        self.limit_rate matches Some(t) ==> usable(upper(trimmed(t)))
    }

    pub open spec fn ascii_limit(self) -> bool {
        self.limit_rate matches Some(t) ==> is_ascii_chars(trimmed(t))
    }

    /// The limit that the text of the bandwidth limit stands for.
    pub open spec fn limit(self, upper: spec_fn(Seq<char>) -> Seq<char>) -> Option<RateLimit> {
        match self.limit_rate {
            Some(t) => match rate_value(upper(trimmed(t))) {
                Some(v) => Some(second_limit(limit_cells(v as int) as u32)),
                None => None,
            },
            None => None,
        }
    }

    /// `d` is the download that this sets up.
    pub open spec fn makes(self, d: Downloader, upper: spec_fn(Seq<char>) -> Seq<char>) -> bool {
        let path = output_path(self.url, self.output);
        &&& d.url@ == self.url
        &&& d.concurrency == self.concurrency
        &&& d.final_output@ == path
        &&& opt_text(d.sha256) == self.sha256
        &&& opt_text(d.md5) == self.md5
        &&& d.handled_by_fallback == self.handled()
        &&& if self.handled() {
            &&& d.targets@.len() == 0
            &&& d.client is None
            &&& header_entries(d.headers) == no_headers()
            &&& d.limiter is None
            &&& !d.auto_concurrency
        } else {
            &&& d.targets@.len() == 1
            &&& d.targets@[0].url@ == self.url
            &&& d.targets@[0].path@ == path
            &&& d.client == Some(settings(self.concurrency, self.insecure, self.auto_concurrency))
            &&& self.table() == Table::Ok(header_entries(d.headers))
            &&& d.limiter == self.limit(upper)
            &&& self.limit_rate is Some ==> d.limiter is Some
            &&& d.auto_concurrency == self.auto_concurrency
        }
    }

    /// What comes of setting up the download: the address is looked at first, then whether
    /// another program has done the work, then the headers, then the bandwidth limit.
    pub open spec fn yields(
        self,
        r: Result<Downloader, SetupError>,
        upper: spec_fn(Seq<char>) -> Seq<char>,
    ) -> bool {
        match r {
            Ok(d) => url_segments(self.url) is Ok && self.makes(d, upper),
            Err(SetupError::Url(e)) => url_segments(self.url) == Err::<
                Option<Seq<Seq<char>>>,
                url::ParseError,
            >(e),
            Err(SetupError::Header(HeaderError::TooMany)) => url_segments(self.url) is Ok
                && !self.handled() && self.table_may_fill_up(),
            Err(SetupError::Header(e)) => url_segments(self.url) is Ok && !self.handled()
                && self.table() == Table::Err(e),
            Err(SetupError::Rate(e)) => self.reaches_limit() && e == RateError::InvalidNumber && (
            self.limit_rate matches Some(t) && rate_value(upper(trimmed(t))) is None),
        }
    }
}

/// `d` fetches `url`, as its only target.
pub open spec fn fetches(d: Downloader, url: Seq<char>) -> bool {
    &&& d.url@ == url
    &&& d.targets@.len() == 1
    &&& d.targets@[0].url@ == url
}

/// Two downloads that may differ in what they fetch, but in nothing else.
pub open spec fn same_but_for_address(d: Downloader, f: Downloader) -> bool {
    &&& d.targets@.len() == f.targets@.len()
    &&& forall|i: int|
        0 <= i < d.targets@.len() ==> (#[trigger] d.targets@[i]).path@ == f.targets@[i].path@
    &&& d.concurrency == f.concurrency
    &&& d.client == f.client
    &&& header_entries(d.headers) == header_entries(f.headers)
    &&& d.final_output@ == f.final_output@
    &&& d.handled_by_fallback == f.handled_by_fallback
    &&& opt_text(d.sha256) == opt_text(f.sha256)
    &&& opt_text(d.md5) == opt_text(f.md5)
    &&& d.limiter == f.limiter
    &&& d.auto_concurrency == f.auto_concurrency
}

/// Where `yt-dlp` did not fetch the file, the address of a video platform is set up like
/// any other: with the same errors, or as the same download with its one target.
pub proof fn failed_tool_leaves_an_ordinary_download(
    video: Setup,
    other: Setup,
    upper: spec_fn(Seq<char>) -> Seq<char>,
)
    requires
        is_video_platform(video.url),
        !video.fetched,
        !is_video_platform(other.url),
        url_segments(other.url) == url_segments(video.url),
        other == (Setup { url: other.url, ..video }),
    ensures
        forall|e: SetupError|
            video.yields(Err(e), upper) == #[trigger] other.yields(Err(e), upper),
        forall|d: Downloader, f: Downloader|
            fetches(d, video.url) && fetches(f, other.url) && #[trigger] same_but_for_address(d, f)
                ==> video.yields(Ok(d), upper) == other.yields(Ok(f), upper),
        forall|d: Downloader|
            #[trigger] video.yields(Ok(d), upper) ==> fetches(d, video.url)
                && !d.handled_by_fallback,
        forall|f: Downloader|
            #[trigger] other.yields(Ok(f), upper) ==> fetches(f, other.url)
                && !f.handled_by_fallback,
{
    assert forall|d: Downloader, f: Downloader|
        fetches(d, video.url) && fetches(f, other.url) && #[trigger] same_but_for_address(
            d,
            f,
        ) implies video.yields(Ok(d), upper) == other.yields(Ok(f), upper) by {
        assert(d.targets@[0].path@ == f.targets@[0].path@);
    }
}

pub open spec fn by_uppercase() -> spec_fn(Seq<char>) -> Seq<char> {
    |s: Seq<char>| uppercase(s)
}

pub open spec fn by_ascii_upper() -> spec_fn(Seq<char>) -> Seq<char> {
    |s: Seq<char>| all_ascii_upper(s)
}

impl Downloader {
    /// Sets up a download. `fetched` says whether the program of `video_command` was run
    /// and succeeded.
    pub fn new(
        url: String,
        output: Option<String>,
        concurrency: usize,
        insecure: bool,
        custom_headers: Vec<String>,
        cookie: Option<String>,
        referer: Option<String>,
        sha256: Option<String>,
        md5: Option<String>,
        limit_rate: Option<String>,
        auto_concurrency: bool,
        fetched: bool,
    ) -> (r: Result<Downloader, SetupError>)
        requires
            ({
                let setup = setup_from(
                    url, output, concurrency, insecure, custom_headers, cookie, referer, sha256,
                    md5, limit_rate, auto_concurrency, fetched,
                );
                setup.reaches_limit() ==> setup.limit_usable(by_uppercase())
            }),
        ensures
            ({
                let setup = setup_from(
                    url, output, concurrency, insecure, custom_headers, cookie, referer, sha256,
                    md5, limit_rate, auto_concurrency, fetched,
                );
                &&& setup.yields(r, by_uppercase())
                &&& setup.ascii_limit() ==> setup.yields(r, by_ascii_upper())
            }),
    {
        let final_output = match output_of(url.as_str(), &output) {
            Ok(path) => path,
            Err(e) => {
                return Err(e);
            },
        };
        let mut targets: Vec<DownloadTarget> = Vec::new();
        if video_platform(url.as_str()) && fetched {
            return Ok(
                Downloader {
                    url,
                    targets,
                    concurrency,
                    client: None,
                    headers: crate::headers::empty_table(),
                    final_output,
                    handled_by_fallback: true,
                    sha256,
                    md5,
                    limiter: None,
                    auto_concurrency: false,
                },
            );
        }
        targets.push(DownloadTarget { url: url.clone(), path: final_output.clone() });
        let headers = match request_headers(&custom_headers, &cookie, &referer) {
            Ok(headers) => headers,
            Err(e) => {
                return Err(SetupError::Header(e));
            },
        };
        let client = client_settings(concurrency, insecure, auto_concurrency);
        let limiter = match &limit_rate {
            Some(text) => match parse_rate(text.as_str()) {
                Ok(rate) => Some(rate_limit(rate)),
                Err(e) => {
                    return Err(SetupError::Rate(e));
                },
            },
            None => None,
        };
        Ok(
            Downloader {
                url,
                targets,
                concurrency,
                client: Some(client),
                headers,
                final_output,
                handled_by_fallback: false,
                sha256,
                md5,
                limiter,
                auto_concurrency,
            },
        )
    }

    /// As `new`, for any bandwidth limit; nothing where the limiter cannot work with it.
    pub fn checked_new(
        url: String,
        output: Option<String>,
        concurrency: usize,
        insecure: bool,
        custom_headers: Vec<String>,
        cookie: Option<String>,
        referer: Option<String>,
        sha256: Option<String>,
        md5: Option<String>,
        limit_rate: Option<String>,
        auto_concurrency: bool,
        fetched: bool,
    ) -> (r: Option<Result<Downloader, SetupError>>)
        ensures
            ({
                let setup = setup_from(
                    url, output, concurrency, insecure, custom_headers, cookie, referer, sha256,
                    md5, limit_rate, auto_concurrency, fetched,
                );
                &&& r is Some ==> setup.yields(r->0, by_uppercase())
                &&& r is Some && setup.ascii_limit() ==> setup.yields(r->0, by_ascii_upper())
                &&& r is None ==> setup.reaches_limit() && !setup.limit_usable(by_uppercase())
                &&& r is None && setup.ascii_limit() ==> !setup.limit_usable(by_ascii_upper())
                &&& setup.reaches_limit() && !setup.limit_usable(by_uppercase()) ==> r is None
                    || r == Some(
                    Err::<Downloader, SetupError>(SetupError::Header(HeaderError::TooMany)),
                )
                &&& !setup.table_may_fill_up() ==> (r is None <==> (setup.reaches_limit()
                    && !setup.limit_usable(by_uppercase())))
            }),
    {
        if let Some(text) = &limit_rate {
            let upper = to_uppercase(trim(text.as_str()));
            if !is_usable(upper.as_str()) && output_of(url.as_str(), &output).is_ok() && !(
            video_platform(url.as_str()) && fetched) {
                return match request_headers(&custom_headers, &cookie, &referer) {
                    Ok(_) => None,
                    Err(e) => Some(Err(SetupError::Header(e))),
                };
            }
        }
        Some(
            Downloader::new(
                url,
                output,
                concurrency,
                insecure,
                custom_headers,
                cookie,
                referer,
                sha256,
                md5,
                limit_rate,
                auto_concurrency,
                fetched,
            ),
        )
    }

    /// Whether a digest of the file was asked for.
    pub open spec fn wants_digest(self) -> bool {
        self.sha256 is Some || self.md5 is Some
    }

    /// With how many workers the download starts.
    pub open spec fn first_workers(self) -> usize {
        if self.auto_concurrency {
            AUTO_START
        } else {
            self.concurrency
        }
    }

    /// With how many workers the download starts.
    pub fn initial_concurrency(&self) -> (r: usize)
        ensures
            r == if self.auto_concurrency {
                AUTO_START
            } else {
                self.concurrency
            },
            r == self.first_workers(),
    {
        if self.auto_concurrency {
            AUTO_START
        } else {
            self.concurrency
        }
    }

    /// Cuts a target of `size` bytes into its pieces.
    pub fn partition_for_target(&self, size: u64, target_idx: usize) -> (chunks: Vec<Chunk>)
        ensures
            chunks@ == pieces(size, target_idx),
    {
        partition(size, target_idx)
    }

    /// The program that takes over where the server asks for credentials.
    pub fn fallback_command(&self) -> (c: ToolCommand)
        ensures
            c.runs("yt-dlp"@, seq!["-o"@, self.final_output@, self.url@]),
            c.runs("yt-dlp"@, fallback_args(self.final_output@, self.url@)),
    {
        let mut command = ToolCommand::new("yt-dlp");
        command.arg("-o");
        command.arg(self.final_output.as_str());
        command.arg(self.url.as_str());
        assert(command.args.deep_view() =~= seq!["-o"@, self.final_output@, self.url@]);
        command
    }

    /// The program that merges the first two targets into the output.
    pub fn merge_command(&self) -> (c: ToolCommand)
        requires
            self.targets@.len() >= 2,
        ensures
            c.runs(
                "ffmpeg"@,
                seq![
                    "-y"@,
                    "-i"@,
                    self.targets@[0].path@,
                    "-i"@,
                    self.targets@[1].path@,
                    "-c"@,
                    "copy"@,
                    self.final_output@,
                ],
            ),
            c.runs(
                "ffmpeg"@,
                merge_args(self.targets@[0].path@, self.targets@[1].path@, self.final_output@),
            ),
    {
        let mut command = ToolCommand::new("ffmpeg");
        command.arg("-y");
        command.arg("-i");
        command.arg(self.targets[0].path.as_str());
        command.arg("-i");
        command.arg(self.targets[1].path.as_str());
        command.arg("-c");
        command.arg("copy");
        command.arg(self.final_output.as_str());
        assert(command.args.deep_view() =~= seq![
            "-y"@,
            "-i"@,
            self.targets@[0].path@,
            "-i"@,
            self.targets@[1].path@,
            "-c"@,
            "copy"@,
            self.final_output@,
        ]);
        command
    }

    /// The files that are no longer needed after the merge: its inputs, if it succeeded.
    pub fn merge_leftovers(&self, merged: bool) -> (paths: Vec<String>)
        requires
            self.targets@.len() >= 2,
        ensures
            paths.deep_view() == if merged {
                seq![self.targets@[0].path@, self.targets@[1].path@]
            } else {
                Seq::empty()
            },
            paths.deep_view() == leftovers(
                self.targets@[0].path@,
                self.targets@[1].path@,
                merged,
            ),
    {
        let mut paths: Vec<String> = Vec::new();
        if merged {
            paths.push(self.targets[0].path.clone());
            paths.push(self.targets[1].path.clone());
            assert(paths.deep_view() =~= seq![self.targets@[0].path@, self.targets@[1].path@]);
        } else {
            assert(paths.deep_view() =~= Seq::empty());
        }
        paths
    }
}

/// The arguments with which `yt-dlp` takes over.
pub open spec fn fallback_args(output: Seq<char>, url: Seq<char>) -> Seq<Seq<char>> {
    seq!["-o"@, output, url]
}

/// The arguments with which `ffmpeg` merges two files.
pub open spec fn merge_args(first: Seq<char>, second: Seq<char>, output: Seq<char>) -> Seq<
    Seq<char>,
> {
    seq!["-y"@, "-i"@, first, "-i"@, second, "-c"@, "copy"@, output]
}

/// The files that a merge leaves over.
pub open spec fn leftovers(first: Seq<char>, second: Seq<char>, merged: bool) -> Seq<Seq<char>> {
    if merged {
        seq![first, second]
    } else {
        Seq::empty()
    }
}

/// The option `flag` stands at position `i` and has this value.
pub open spec fn gives(args: Seq<Seq<char>>, i: int, flag: Seq<char>, value: Seq<char>) -> bool {
    0 <= i < args.len() - 1 && args[i] == flag && args[i + 1] == value
}

/// `yt-dlp` is told the format, where to write, what to fetch and where the cookies are, as it
/// was asked for, and nothing else.
pub proof fn video_is_fetched_as_asked(
    url: Seq<char>,
    path: Seq<char>,
    format_spec: Option<Seq<char>>,
    cookie_path: Option<Seq<char>>,
)
    ensures
        ({
            let args = video_args(url, path, format_spec, cookie_path);
            &&& args.len() == 7
            &&& match format_spec {
                Some(format) => gives(args, 0, "-f"@, format),
                None => gives(args, 0, "-f"@, "bestvideo+bestaudio/best"@),
            }
            &&& gives(args, 2, "-o"@, path)
            &&& args[4] == url
            &&& match cookie_path {
                Some(cookies) => gives(args, 5, "--cookies"@, cookies),
                None => gives(args, 5, "--cookies-from-browser"@, "chrome"@),
            }
        }),
{
}

/// The program that takes over is told where to write and what to fetch, and nothing else.
pub proof fn fallback_fetches_the_same(output: Seq<char>, url: Seq<char>)
    ensures
        fallback_args(output, url).len() == 3,
        gives(fallback_args(output, url), 0, "-o"@, output),
        fallback_args(output, url)[2] == url,
{
}

/// A merge reads the two files in order, copies their streams as they are and overwrites the
/// output; its inputs are left over if and only if it succeeded.
pub proof fn merge_copies_two_files(
    first: Seq<char>,
    second: Seq<char>,
    output: Seq<char>,
    merged: bool,
)
    ensures
        ({
            let args = merge_args(first, second, output);
            &&& args.len() == 8
            &&& args[0] == "-y"@
            &&& gives(args, 1, "-i"@, first)
            &&& gives(args, 3, "-i"@, second)
            &&& gives(args, 5, "-c"@, "copy"@)
            &&& args.last() == output
        }),
        leftovers(first, second, true).len() == 2,
        leftovers(first, second, true)[0] == first,
        leftovers(first, second, true)[1] == second,
        leftovers(first, second, false).len() == 0,
        leftovers(first, second, merged).len() > 0 <==> merged,
{
}

/// A command runs a program if and only if it has its name and all the arguments, in order.
pub proof fn command_is_its_program_and_arguments(
    command: ToolCommand,
    program: Seq<char>,
    args: Seq<Seq<char>>,
)
    ensures
        command.runs(program, args) <==> command.program@ == program && command.args.deep_view()
            == args,
{
}

/// The videos of five platforms are left to `yt-dlp`: their addresses are those in which the
/// name of one of them stands, wherever it stands.
pub proof fn platforms_are_told_by_their_names(url: Seq<char>, before: Seq<char>, after: Seq<char>)
    ensures
        is_video_platform(before + "youtube.com"@ + after),
        is_video_platform(before + "youtu.be"@ + after),
        is_video_platform(before + "facebook.com"@ + after),
        is_video_platform(before + "instagram.com"@ + after),
        is_video_platform(before + "tiktok.com"@ + after),
        is_video_platform(url) ==> has_part(url, "youtube.com"@) || has_part(url, "youtu.be"@)
            || has_part(url, "facebook.com"@) || has_part(url, "instagram.com"@) || has_part(
            url,
            "tiktok.com"@,
        ),
{
    parts_stand_between_others(url, before, "youtube.com"@, after);
    parts_stand_between_others(url, before, "youtu.be"@, after);
    parts_stand_between_others(url, before, "facebook.com"@, after);
    parts_stand_between_others(url, before, "instagram.com"@, after);
    parts_stand_between_others(url, before, "tiktok.com"@, after);
}

/// An output that was asked for is used as it is; otherwise the last segment of the path names
/// the file, unless there is none or it is empty.
pub proof fn output_is_what_was_asked_for(
    url: Seq<char>,
    output: Seq<char>,
    before: Seq<Seq<char>>,
    last: Seq<char>,
)
    ensures
        output_path(url, Some(output)) == output,
        parsed_url(url) matches Ok(u) ==> output_path(url, None) == file_name(
            path_segments(url_path(u)),
        ),
        last.len() > 0 ==> file_name(Some(before.push(last))) == last,
        last.len() == 0 ==> file_name(Some(before.push(last))) == "download"@,
        file_name(Some(Seq::empty())) == "download"@,
        file_name(None) == "download"@,
        url_segments(url) is Ok <==> parsed_url(url) is Ok,
{
}

/// The client keeps as many connections as there can be workers, 32 at least, and no more; it
/// accepts invalid certificates if and only if that was asked for.
pub proof fn client_is_set_up_as_asked(concurrency: usize, insecure: bool, auto_concurrency: bool)
    ensures
        ({
            let s = settings(concurrency, insecure, auto_concurrency);
            &&& s.insecure == insecure
            &&& auto_concurrency ==> s.pool_size == 128
            &&& !auto_concurrency ==> s.pool_size >= 32 && s.pool_size >= concurrency && (
            s.pool_size == 32 || s.pool_size == concurrency)
        }),
{
}

/// A download starts with as many workers as were asked for, or with 16 where it finds the
/// number itself.
pub proof fn download_starts_with_the_workers_asked_for(d: Downloader)
    ensures
        d.auto_concurrency ==> d.first_workers() == 16,
        !d.auto_concurrency ==> d.first_workers() == d.concurrency,
{
}

/// A download that was set up has all that was asked for: its address as the only target, the
/// output, the digests, the headers, the workers and the limit, which grants exactly the rate
/// that was asked for if that has less than 32 bits. Only a video that `yt-dlp` has fetched
/// leaves nothing to do.
pub proof fn download_is_set_up_as_asked(
    setup: Setup,
    d: Downloader,
    upper: spec_fn(Seq<char>) -> Seq<char>,
)
    requires
        setup.makes(d, upper),
    ensures
        d.url@ == setup.url,
        d.final_output@ == output_path(setup.url, setup.output),
        d.concurrency == setup.concurrency,
        opt_text(d.sha256) == setup.sha256,
        opt_text(d.md5) == setup.md5,
        d.handled_by_fallback <==> is_video_platform(setup.url) && setup.fetched,
        d.handled_by_fallback ==> d.targets@.len() == 0 && d.client is None && d.limiter is None
            && !d.auto_concurrency && header_entries(d.headers) == Map::<
            Seq<char>,
            Seq<u8>,
        >::empty(),
        !d.handled_by_fallback ==> {
            &&& d.targets@.len() == 1
            &&& d.targets@[0].url@ == setup.url
            &&& d.targets@[0].path@ == output_path(setup.url, setup.output)
            &&& d.auto_concurrency == setup.auto_concurrency
            &&& request_table(setup.custom_headers, setup.cookie, setup.referer) matches Ok(entries)
                && entries == header_entries(d.headers)
            &&& d.client matches Some(client) && client == settings(
                setup.concurrency,
                setup.insecure,
                setup.auto_concurrency,
            )
            &&& d.limiter is Some <==> setup.limit_rate is Some
            &&& setup.limit_rate matches Some(t) ==> {
                &&& rate_value(upper(trimmed(t))) is Some
                &&& (rate_value(upper(trimmed(t)))->0 - d.limiter->0.burst) % 0x1_0000_0000 == 0
                &&& d.limiter->0.quota == second_quota(d.limiter->0.burst)
                &&& rate_value(upper(trimmed(t)))->0 < 0x1_0000_0000 ==> d.limiter->0.burst
                    == rate_value(upper(trimmed(t)))->0 && d.limiter->0.quota == second_quota(
                    rate_value(upper(trimmed(t)))->0 as u32,
                )
            }
        },
{
}

/// Setting up a download succeeds unless something that was given is bad, and the error tells
/// the first thing that is: the address, then the headers, of which there may also be too many,
/// then the limit. Neither headers nor limit count for a video that `yt-dlp` has fetched.
pub proof fn setup_succeeds_or_says_why(
    setup: Setup,
    r: Result<Downloader, SetupError>,
    upper: spec_fn(Seq<char>) -> Seq<char>,
)
    requires
        setup.yields(r, upper),
    ensures
        ({
            let too_many = r matches Err(SetupError::Header(HeaderError::TooMany)) && may_fill_up(
                setup.custom_headers,
                setup.cookie,
                setup.referer,
            );
            let table = request_table(setup.custom_headers, setup.cookie, setup.referer);
            let fetched = is_video_platform(setup.url) && setup.fetched;
            let bad_limit = setup.limit_rate matches Some(t) && rate_value(upper(trimmed(t)))
                is None;
            match parsed_url(setup.url) {
                Err(e) => r matches Err(SetupError::Url(u)) && u == e,
                Ok(_) => if fetched {
                    r is Ok
                } else {
                    too_many || match table {
                        Err(e) => r matches Err(SetupError::Header(h)) && h == e,
                        Ok(_) => if bad_limit {
                            r matches Err(SetupError::Rate(_))
                        } else {
                            r is Ok
                        },
                    }
                },
            }
        }),
{
}

/// What a download is set up from is what was given, each in its place.
pub proof fn setup_holds_what_was_given(
    url: String,
    output: Option<String>,
    concurrency: usize,
    insecure: bool,
    custom_headers: Vec<String>,
    cookie: Option<String>,
    referer: Option<String>,
    sha256: Option<String>,
    md5: Option<String>,
    limit_rate: Option<String>,
    auto_concurrency: bool,
    fetched: bool,
)
    ensures
        ({
            let setup = setup_from(
                url, output, concurrency, insecure, custom_headers, cookie, referer, sha256,
                md5, limit_rate, auto_concurrency, fetched,
            );
            &&& setup.url == url@
            &&& setup.output == opt_text(output)
            &&& setup.concurrency == concurrency
            &&& setup.insecure == insecure
            &&& setup.custom_headers.len() == custom_headers@.len()
            &&& forall|i: int|
                0 <= i < custom_headers@.len() ==> #[trigger] setup.custom_headers[i]
                    == custom_headers@[i]@
            &&& setup.cookie == opt_text(cookie)
            &&& setup.referer == opt_text(referer)
            &&& setup.sha256 == opt_text(sha256)
            &&& setup.md5 == opt_text(md5)
            &&& setup.limit_rate == opt_text(limit_rate)
            &&& setup.auto_concurrency == auto_concurrency
            &&& setup.fetched == fetched
        }),
        forall|s: Seq<char>| #[trigger] by_uppercase()(s) == uppercase(s),
        forall|s: Seq<char>| #[trigger] by_ascii_upper()(s) == all_ascii_upper(s),
{
}

/// Only a limit whose rate has no cells for the limiter, or more than 64 bits, is of no use; and
/// the limit is looked at only if all before it is well.
pub proof fn limit_is_of_use_unless_it_has_no_cells(
    setup: Setup,
    upper: spec_fn(Seq<char>) -> Seq<char>,
)
    ensures
        setup.limit_usable(upper) <==> match setup.limit_rate {
            Some(t) => match rate_value(upper(trimmed(t))) {
                Some(v) => v <= 0xffff_ffff_ffff_ffff && v % 0x1_0000_0000 != 0,
                None => true,
            },
            None => true,
        },
        setup.reaches_limit() <==> parsed_url(setup.url) is Ok && !(is_video_platform(setup.url)
            && setup.fetched) && request_table(setup.custom_headers, setup.cookie, setup.referer)
            is Ok,
{
}

/// Why a download cannot be set up is told in these words.
pub proof fn setup_errors_read_so(e: SetupError)
    ensures
        match e {
            SetupError::Url(_) => e.text() == "Failed to parse URL"@,
            SetupError::Header(h) => e.text() == h.text(),
            SetupError::Rate(_) => e.text() == "Invalid rate number"@,
        },
{
}

/// What these arguments set up.
pub open spec fn setup_from(
    url: String,
    output: Option<String>,
    concurrency: usize,
    insecure: bool,
    custom_headers: Vec<String>,
    cookie: Option<String>,
    referer: Option<String>,
    sha256: Option<String>,
    md5: Option<String>,
    limit_rate: Option<String>,
    auto_concurrency: bool,
    fetched: bool,
) -> Setup {
    Setup {
        url: url@,
        output: opt_text(output),
        concurrency,
        insecure,
        custom_headers: custom_headers.deep_view(),
        cookie: opt_text(cookie),
        referer: opt_text(referer),
        sha256: opt_text(sha256),
        md5: opt_text(md5),
        limit_rate: opt_text(limit_rate),
        auto_concurrency,
        fetched,
    }
}

} // verus!
