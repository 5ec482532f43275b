//! Downloads from GitHub: which addresses are asked, how redirects are followed, and how much
//! is taken.
use crate::launcher_api;
use crate::launcher_api::units_before_zero;
use crate::numbers::characters;
use crate::text;
use crate::text::{push_decimal, same_text};
use crate::utf16;
use vstd::prelude::*;

verus! {

pub const MAX_REQUESTS: u32 = 6;

/// A character that a download address may hold.
pub open spec fn plain(c: char) -> bool {
    32 < c as int && (c as int) < 127 && c != '\\' && c != '#'
}

pub open spec fn all_plain(s: Seq<char>) -> bool {
    forall|i: int| 0 <= i < s.len() ==> plain(#[trigger] s[i])
}

/// The first slash from `i` on, or the length.
pub open spec fn slash_from(s: Seq<char>, i: int) -> int
    decreases s.len() - i,
{
    if i >= s.len() {
        s.len() as int
    } else if s[i] == '/' {
        i
    } else {
        slash_from(s, i + 1)
    }
}

/// The hosts that updates come from.
pub open spec fn known_host(host: Seq<char>) -> bool {
    ||| host == "api.github.com"@
    ||| host == "github.com"@
    ||| host == "release-assets.githubusercontent.com"@
    ||| host == "objects.githubusercontent.com"@
}

pub open spec fn https(url: Seq<char>) -> bool {
    url.len() >= 8 && url.take(8) == "https://"@
}

/// The host and the path of a download address.
pub open spec fn parts_of(url: Seq<char>) -> Result<(Seq<char>, Seq<char>), Seq<char>> {
    let end = slash_from(url, 8);
    if !https(url) {
        Err("Updates require HTTPS"@)
    } else if end >= url.len() {
        Err("Invalid update URL"@)
    } else if !known_host(url.subrange(8, end)) || !all_plain(url) {
        Err("Unexpected update download host or URL"@)
    } else {
        Ok((url.subrange(8, end), url.skip(end)))
    }
}

pub open spec fn parts_agree(
    spec: Result<(Seq<char>, Seq<char>), Seq<char>>,
    r: Result<(&str, &str), String>,
) -> bool {
    match spec {
        Ok((host, path)) => r is Ok && r->Ok_0.0@ == host && r->Ok_0.1@ == path,
        Err(e) => r is Err && r->Err_0@ == e,
    }
}

fn is_known(host: &str) -> (r: bool)
    ensures
        r == known_host(host@),
{
    same_text(host, "api.github.com") || same_text(host, "github.com") || same_text(
        host,
        "release-assets.githubusercontent.com",
    ) || same_text(host, "objects.githubusercontent.com")
}

fn is_plain(chars: &Vec<char>) -> (r: bool)
    ensures
        r == all_plain(chars@),
{
    let mut i: usize = 0;
    while i < chars.len()
        invariant
            i <= chars@.len(),
            forall|k: int| 0 <= k < i ==> plain(#[trigger] chars@[k]),
        decreases chars@.len() - i,
    {
        let c: char = chars[i];
        proof {
            utf16::lemma_char(c);
        }
        let v: u32 = c as u32;
        if v <= 32 || v >= 127 || c == '\\' || c == '#' {
            assert(!plain(chars@[i as int]));
            return false;
        }
        i = i + 1;
    }
    true
}

/// Splits a download address, which must be an HTTPS address of GitHub's.
pub fn split_url(url: &str) -> (r: Result<(&str, &str), String>)
    ensures
        parts_agree(parts_of(url@), r),
{
    let chars: Vec<char> = characters(url);
    let n: usize = chars.len();
    proof {
        reveal_strlit("https://");
    }
    if n < 8 || !same_text(url.substring_char(0, 8), "https://") {
        assert(n >= 8 ==> url@.subrange(0, 8) =~= url@.take(8));
        return Err("Updates require HTTPS".to_owned());
    }
    assert(url@.subrange(0, 8) =~= url@.take(8));
    let mut end: usize = 8;
    while end < n && chars[end] != '/'
        invariant
            8 <= end <= n,
            n == chars@.len(),
            chars@ == url@,
            slash_from(url@, end as int) == slash_from(url@, 8),
        decreases n - end,
    {
        end = end + 1;
    }
    if end == n {
        return Err("Invalid update URL".to_owned());
    }
    let host: &str = url.substring_char(8, end);
    if !is_known(host) || !is_plain(&chars) {
        return Err("Unexpected update download host or URL".to_owned());
    }
    let path: &str = url.substring_char(end, n);
    assert(path@ =~= url@.skip(end as int));
    Ok((host, path))
}

pub open spec fn status_text(status: u32) -> Seq<char> {
    if status == 403 || status == 429 {
        "GitHub request limit reached. Try again later."@
    } else if status == 404 {
        "The update asset is not available on GitHub."@
    } else {
        "GitHub returned HTTP "@ + text::decimal(status as nat)
    }
}

/// What a download shows when it fails.
pub fn status_error(status: u32) -> (r: String)
    ensures
        r@ == status_text(status),
{
    if status == 403 || status == 429 {
        return "GitHub request limit reached. Try again later.".to_owned();
    }
    if status == 404 {
        return "The update asset is not available on GitHub.".to_owned();
    }
    let mut out = "GitHub returned HTTP ".to_owned();
    push_decimal(&mut out, status as u64);
    out
}

/// The headers of a request.
pub open spec fn request_headers_of(host: &str) -> Seq<char> {
    if host@ == "api.github.com"@ {
        "Accept: application/vnd.github+json\r\nX-GitHub-Api-Version: 2022-11-28\r\n"@
    } else {
        "Accept: application/octet-stream\r\n"@
    }
}

/// The headers that a request carries.
pub fn request_headers(host: &str) -> (r: &'static str)
    ensures
        r@ == request_headers_of(host),
{
    if same_text(host, "api.github.com") {
        "Accept: application/vnd.github+json\r\nX-GitHub-Api-Version: 2022-11-28\r\n"
    } else {
        "Accept: application/octet-stream\r\n"
    }
}

/// What a response leads to.
#[derive(Clone, Copy, Debug, PartialEq, Eq, Structural)]
pub enum Response {
    /// Another address is to be asked.
    Redirect,
    /// There is a body to take.
    Body,
    /// The status is all there is.
    Finished,
}

pub open spec fn is_redirect(status: u32) -> bool {
    status == 301 || status == 302 || status == 303 || status == 307 || status == 308
}

/// What a status means for a download.
pub open spec fn response_of(status: u32) -> Response {
    if is_redirect(status) {
        Response::Redirect
    } else if status == 200 {
        Response::Body
    } else {
        Response::Finished
    }
}

/// UTF-16 in which every surrogate has its partner.
pub open spec fn paired(u: Seq<u16>) -> bool
    decreases u.len(),
{
    if u.len() == 0 {
        true
    } else if utf16::is_high(u[0]) {
        u.len() >= 2 && utf16::is_low(u[1]) && paired(u.skip(2))
    } else {
        !utf16::is_low(u[0]) && paired(u.skip(1))
    }
}

fn is_paired(u: &[u16]) -> (r: bool)
    ensures
        r == paired(u@),
{
    let n: usize = u.len();
    let mut i: usize = 0;
    assert(u@.skip(0) =~= u@);
    while i < n
        invariant
            i <= n,
            n == u@.len(),
            paired(u@.skip(i as int)) == paired(u@),
        decreases n - i,
    {
        let ghost rest = u@.skip(i as int);
        let a: u16 = u[i];
        assert(rest[0] == a);
        if a >= 0xD800 && a <= 0xDBFF {
            if n - i < 2 {
                return false;
            }
            assert(rest[1] == u@[i + 1]);
            if u[i + 1] < 0xDC00 || u[i + 1] > 0xDFFF {
                return false;
            }
            assert(rest.skip(2) =~= u@.skip(i + 2));
            i = i + 2;
        } else {
            if a >= 0xDC00 && a <= 0xDFFF {
                return false;
            }
            assert(rest.skip(1) =~= u@.skip(i + 1));
            i = i + 1;
        }
    }
    assert(u@.skip(n as int) =~= Seq::<u16>::empty());
    true
}

/// The host and the path of the next request, or why there is none.
pub open spec fn request_of(url: Seq<char>, requests: u32, stop: bool) -> Result<
    (Seq<char>, Seq<char>),
    Seq<char>,
> {
    if requests == MAX_REQUESTS {
        Err("Too many update redirects"@)
    } else if stop {
        Err("Update cancelled"@)
    } else {
        parts_of(url)
    }
}

/// How many requests were begun, once another was to be.
pub open spec fn requests_after(requests: u32, stop: bool) -> int {
    if requests == MAX_REQUESTS || stop {
        requests as int
    } else {
        requests + 1
    }
}

/// A body and its next piece, if both together are not too long.
pub open spec fn longer_body(body: Seq<u8>, bytes: Seq<u8>, maximum: nat) -> Option<Seq<u8>> {
    if body.len() + bytes.len() <= maximum {
        Some(body + bytes)
    } else {
        None
    }
}

/// A download under way: the address that is asked now, how many have been asked before it,
/// and what was taken so far.
#[derive(Debug)]
pub struct Fetch {
    pub url: String,
    pub requests: u32,
    pub maximum: usize,
    pub body: Vec<u8>,
}

/// An address was named.
pub open spec fn redirected(
    before: Fetch,
    after: Fetch,
    location: Seq<u16>,
    r: Result<(), String>,
) -> bool {
    &&& after.requests == before.requests
    &&& after.maximum == before.maximum
    &&& after.body@ == before.body@
    &&& if paired(launcher_api::until_zero(location)) {
        r is Ok && after.url@ == utf16::decoded(launcher_api::until_zero(location))
    } else {
        &&& r is Err && r->Err_0@ == "invalid utf-16: lone surrogate found"@
        &&& after.url@ == before.url@
    }
}

impl Fetch {
    /// Never more requests than allowed, never more bytes than announced.
    pub open spec fn wf(self) -> bool {
        self.requests <= MAX_REQUESTS && self.body@.len() <= self.maximum
    }

    pub fn new(url: &str, maximum: usize) -> (r: Self)
        ensures
            r.wf(),
            r.url@ == url@,
            r.requests == 0,
            r.maximum == maximum,
            r.body@.len() == 0,
    {
        Fetch { url: url.to_owned(), requests: 0, maximum, body: Vec::new() }
    }

    /// Starts the next request and gives its host and path.
    pub fn begin(&mut self, stop: bool) -> (r: Result<(String, String), String>)
        requires
            old(self).wf(),
        ensures
            final(self).wf(),
            final(self).url@ == old(self).url@,
            final(self).maximum == old(self).maximum,
            final(self).body@ == old(self).body@,
            final(self).requests == requests_after(old(self).requests, stop),
            match request_of(old(self).url@, old(self).requests, stop) {
                Ok((host, path)) => r is Ok && r->Ok_0.0@ == host && r->Ok_0.1@ == path,
                Err(e) => r is Err && r->Err_0@ == e,
            },
    {
        if self.requests == MAX_REQUESTS {
            return Err("Too many update redirects".to_owned());
        }
        if stop {
            return Err("Update cancelled".to_owned());
        }
        self.requests = self.requests + 1;
        match split_url(self.url.as_str()) {
            Ok((host, path)) => Ok((host.to_owned(), path.to_owned())),
            Err(e) => Err(e),
        }
    }

    /// What a status leads to.
    pub fn response(&self, status: u32) -> (r: Response)
        ensures
            r == response_of(status),
    {
        if status == 301 || status == 302 || status == 303 || status == 307 || status == 308 {
            Response::Redirect
        } else if status == 200 {
            Response::Body
        } else {
            Response::Finished
        }
    }

    /// Takes the address that a redirect names, up to its first zero.
    pub fn redirect(&mut self, location: &[u16]) -> (r: Result<(), String>)
        requires
            old(self).wf(),
        ensures
            final(self).wf(),
            redirected(*old(self), *final(self), location@, r),
    {
        let n: usize = units_before_zero(location);
        let units: &[u16] = vstd::slice::slice_subrange(location, 0, n);
        assert(units@ =~= launcher_api::until_zero(location@));
        if !is_paired(units) {
            return Err("invalid utf-16: lone surrogate found".to_owned());
        }
        self.url = utf16::decode(units);
        Ok(())
    }

    /// Whether the next piece of the body is read.
    pub fn proceed(&self, stop: bool) -> (r: Result<(), String>)
        ensures
            r is Ok <==> !stop,
            r is Err ==> r->Err_0@ == "Update cancelled"@,
    {
        if stop {
            return Err("Update cancelled".to_owned());
        }
        Ok(())
    }

    /// Takes a piece of the body.
    pub fn chunk(&mut self, bytes: &[u8]) -> (r: Result<(), String>)
        requires
            old(self).wf(),
        ensures
            final(self).wf(),
            final(self).url@ == old(self).url@,
            final(self).requests == old(self).requests,
            final(self).maximum == old(self).maximum,
            match longer_body(old(self).body@, bytes@, old(self).maximum as nat) {
                Some(body) => r is Ok && final(self).body@ == body,
                None => {
                    &&& r is Err && r->Err_0@ == "Update response exceeds its size limit"@
                    &&& final(self).body@ == old(self).body@
                },
            },
    {
        if bytes.len() > self.maximum - self.body.len() {
            return Err("Update response exceeds its size limit".to_owned());
        }
        self.body.extend_from_slice(bytes);
        Ok(())
    }
}

/// Every address that is asked is an HTTPS address on one of GitHub's hosts, with nothing in it
/// that could end a header.
pub proof fn lemma_only_github(url: Seq<char>)
    requires
        parts_of(url) is Ok,
    ensures
        https(url),
        known_host(parts_of(url)->Ok_0.0),
        all_plain(parts_of(url)->Ok_0.1),
        parts_of(url)->Ok_0.1.len() > 0,
        "https://"@ + parts_of(url)->Ok_0.0 + parts_of(url)->Ok_0.1 == url,
{
    let end = slash_from(url, 8);
    lemma_slash(url, 8);
    assert forall|i: int| 0 <= i < url.skip(end).len() implies plain(#[trigger] url.skip(end)[i]) by {
        assert(url.skip(end)[i] == url[end + i]);
    }
    assert("https://"@ + url.subrange(8, end) + url.skip(end) =~= url) by {
        reveal_strlit("https://");
        assert(url.take(8) + url.subrange(8, end) + url.skip(end) =~= url);
    }
}

proof fn lemma_slash(s: Seq<char>, i: int)
    requires
        0 <= i <= s.len(),
    ensures
        i <= slash_from(s, i) <= s.len(),
        slash_from(s, i) < s.len() ==> s[slash_from(s, i)] == '/',
    decreases s.len() - i,
{
    if i < s.len() {
        lemma_slash(s, i + 1);
    }
}

} // verus!
