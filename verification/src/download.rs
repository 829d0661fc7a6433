//! Download planning: temporary file names, resuming, the total length of a
//! response, and splitting a file into byte ranges fetched in parallel.
use crate::numfmt::{parse_u64, push_decimal, decimal, spec_parse_u64};
use crate::text::{chars_of, split_once, split_once_chars, string_of};
use vstd::prelude::*;

verus! {

broadcast use vstd::string::group_string_axioms;

/// The file name used when the destination has none.
pub open spec fn fallback_name() -> Seq<char> {
    "download"@
}

/// The destination's file name, or `download`.
pub open spec fn base_name(file_name: Option<Seq<char>>) -> Seq<char> {
    match file_name {
        Some(n) => n,
        None => fallback_name(),
    }
}

/// Views of an optional string slice.
pub open spec fn opt_str_view(o: Option<&str>) -> Option<Seq<char>> {
    match o {
        Some(s) => Some(s@),
        None => None,
    }
}

/// The destination's file name as characters, or `download`.
fn base_chars(file_name: Option<&str>) -> (r: Vec<char>)
    ensures
        r@ == base_name(opt_str_view(file_name)),
{
    match file_name {
        Some(n) => chars_of(n),
        None => chars_of("download"),
    }
}

/// Appends the characters of a string slice.
fn push_str(out: &mut Vec<char>, s: &str)
    ensures
        final(out)@ == old(out)@ + s@,
{
    let cs = chars_of(s);
    let mut i: usize = 0;
    let ghost base = out@;
    while i < cs.len()
        invariant
            0 <= i <= cs.len(),
            cs@ == s@,
            out@ == base + cs@.take(i as int),
        decreases cs.len() - i,
    {
        out.push(cs[i]);
        assert(cs@.take(i as int).push(cs@[i as int]) =~= cs@.take(i + 1));
        i = i + 1;
    }
    assert(cs@.take(cs.len() as int) =~= cs@);
}

/// The file name of the partial download kept beside the destination:
/// `<name>.tmp`, where `<name>` is the destination's file name when it is
/// valid UTF-8, else `download`.
pub fn temp_download_path(file_name: Option<&str>) -> (r: String)
    ensures
        r@ == base_name(opt_str_view(file_name)) + ".tmp"@,
{
    let mut out = base_chars(file_name);
    push_str(&mut out, ".tmp");
    string_of(&out)
}

/// The file name of part `index` of a parallel download: `<name>.part<index>`.
pub fn parallel_part_path(file_name: Option<&str>, index: usize) -> (r: String)
    ensures
        r@ == base_name(opt_str_view(file_name)) + ".part"@ + decimal(index as nat),
{
    let mut out = base_chars(file_name);
    push_str(&mut out, ".part");
    push_decimal(&mut out, index as u64);
    string_of(&out)
}

/// The `Range` header asking for the rest of a file from `offset`:
/// `bytes=<offset>-`.
pub fn resume_range_header(offset: u64) -> (r: String)
    ensures
        r@ == "bytes="@ + decimal(offset as nat) + "-"@,
{
    let mut out: Vec<char> = Vec::new();
    push_str(&mut out, "bytes=");
    push_decimal(&mut out, offset);
    push_str(&mut out, "-");
    assert(out@ =~= Seq::<char>::empty() + "bytes="@ + decimal(offset as nat) + "-"@);
    string_of(&out)
}

/// The `Range` header asking for bytes `start..=end`: `bytes=<start>-<end>`.
pub fn part_range_header(start: u64, end: u64) -> (r: String)
    ensures
        r@ == "bytes="@ + decimal(start as nat) + "-"@ + decimal(end as nat),
{
    let mut out: Vec<char> = Vec::new();
    push_str(&mut out, "bytes=");
    push_decimal(&mut out, start);
    push_str(&mut out, "-");
    push_decimal(&mut out, end);
    assert(out@ =~= Seq::<char>::empty() + "bytes="@ + decimal(start as nat) + "-"@ + decimal(
        end as nat,
    ));
    string_of(&out)
}

/// The second `/`-separated field of a header value.
pub open spec fn second_field(s: Seq<char>) -> Option<Seq<char>> {
    match split_once(s, '/') {
        Some((_, rest)) => match split_once(rest, '/') {
            Some((f, _)) => Some(f),
            None => Some(rest),
        },
        None => None,
    }
}

/// The total length of the file a response carries: the number after the
/// `/` of `Content-Range` when it parses, else the body length, to which a
/// partial (206) response adds the offset it resumes from.
pub open spec fn spec_total_length(
    content_range: Option<Seq<char>>,
    content_length: Option<u64>,
    partial: bool,
    resume_from: u64,
) -> Option<int> {
    let from_range = match content_range {
        Some(r) => match second_field(r) {
            Some(f) => spec_parse_u64(f),
            None => None,
        },
        None => None,
    };
    match from_range {
        Some(t) => Some(t as int),
        None => match content_length {
            Some(len) => if partial {
                Some(len + resume_from)
            } else {
                Some(len as int)
            },
            None => None,
        },
    }
}

/// The total length of a response's file (see `spec_total_length`).
/// `content_range` is the `Content-Range` header when it is visible ASCII.
pub fn response_total_length(
    content_range: Option<&str>,
    content_length: Option<u64>,
    partial: bool,
    resume_from: u64,
) -> (r: Option<u64>)
    requires
        partial ==> match content_length {
            Some(len) => len + resume_from <= u64::MAX,
            None => true,
        },
    ensures
        match r {
            Some(v) => spec_total_length(
                opt_str_view(content_range),
                content_length,
                partial,
                resume_from,
            ) == Some(v as int),
            None => spec_total_length(
                opt_str_view(content_range),
                content_length,
                partial,
                resume_from,
            ) is None,
        },
{
    if let Some(range) = content_range {
        let cs = chars_of(range);
        if let Some((_, rest)) = split_once_chars(&cs, '/') {
            let field = match split_once_chars(&rest, '/') {
                Some((f, _)) => f,
                None => rest,
            };
            let text = string_of(&field);
            if let Some(total) = parse_u64(text.as_str()) {
                return Some(total);
            }
        }
    }
    match content_length {
        Some(len) => {
            if partial {
                Some(len + resume_from)
            } else {
                Some(len)
            }
        },
        None => None,
    }
}

/// `s` contains `p` at some position.
pub open spec fn contains_seq(s: Seq<char>, p: Seq<char>) -> bool {
    exists|i: int| 0 <= i && i + p.len() <= s.len() && #[trigger] s.subrange(i, i + p.len()) == p
}

/// ASCII lowercase of one character.
pub open spec fn ascii_lower(c: char) -> char {
    if 'A' <= c && c <= 'Z' {
        ((c as u32) + 32) as char
    } else {
        c
    }
}

/// `str::to_ascii_lowercase`.
pub open spec fn ascii_lowercase(s: Seq<char>) -> Seq<char> {
    s.map_values(|c: char| ascii_lower(c))
}

/// A server supports ranged requests when it answered a ranged request with
/// 206 or advertises `Accept-Ranges` containing `bytes`, in any case.
pub open spec fn spec_supports_parallel(partial: bool, accept_ranges: Option<Seq<char>>) -> bool {
    partial || match accept_ranges {
        Some(v) => contains_seq(ascii_lowercase(v), "bytes"@),
        None => false,
    }
}

/// Whether parts of the file can be fetched in parallel (see
/// `spec_supports_parallel`). `accept_ranges` is the `Accept-Ranges` header
/// when it is visible ASCII.
pub fn supports_parallel_download(partial: bool, accept_ranges: Option<&str>) -> (r: bool)
    ensures
        r == spec_supports_parallel(partial, opt_str_view(accept_ranges)),
{
    if partial {
        return true;
    }
    match accept_ranges {
        None => false,
        Some(v) => {
            let cs = chars_of(v);
            let mut low: Vec<char> = Vec::new();
            let mut i: usize = 0;
            while i < cs.len()
                invariant
                    0 <= i <= cs.len(),
                    low@ == ascii_lowercase(cs@.take(i as int)),
                decreases cs.len() - i,
            {
                let c = cs[i];
                let l = if 'A' <= c && c <= 'Z' {
                    ((c as u8) + 32) as char
                } else {
                    c
                };
                assert(l == ascii_lower(c)) by {
                    if 'A' <= c && c <= 'Z' {
                        assert((c as u8) as u32 == c as u32);
                    }
                };
                low.push(l);
                assert(ascii_lowercase(cs@.take(i + 1)) =~= ascii_lowercase(cs@.take(i as int)).push(
                    l,
                ));
                i = i + 1;
            }
            assert(cs@.take(cs.len() as int) =~= cs@);
            let pat = chars_of("bytes");
            let found = find_seq(&low, &pat);
            found
        },
    }
}

/// Whether `p` occurs in `s`.
fn find_seq(s: &Vec<char>, p: &Vec<char>) -> (r: bool)
    ensures
        r == contains_seq(s@, p@),
{
    if p.len() > s.len() {
        return false;
    }
    let mut i: usize = 0;
    while i <= s.len() - p.len()
        invariant
            p.len() <= s.len(),
            0 <= i <= s.len() - p.len() + 1,
            forall|k: int| 0 <= k < i ==> #[trigger] s@.subrange(k, k + p.len()) != p@,
        decreases s.len() - i,
    {
        let mut j: usize = 0;
        let mut same = true;
        while j < p.len()
            invariant
                i + p.len() <= s.len(),
                0 <= j <= p.len(),
                same == forall|m: int| 0 <= m < j ==> s@[i + m] == p@[m],
            decreases p.len() - j,
        {
            if s[i + j] != p[j] {
                same = false;
            }
            j = j + 1;
        }
        if same {
            assert(s@.subrange(i as int, i + p.len()) =~= p@);
            return true;
        } else {
            let ghost m = choose|m: int| 0 <= m < p.len() && s@[i + m] != p@[m];
            assert(s@.subrange(i as int, i + p.len())[m] != p@[m]);
        }
        i = i + 1;
    }
    assert forall|k: int| 0 <= k && k + p.len() <= s.len() implies #[trigger] s@.subrange(
        k,
        k + p.len(),
    ) != p@ by {
        assert(k < i);
    }
    false
}

/// Threads used for one download: the configured number, at least 1 and at
/// most 8.
pub fn desired_threads(configured: usize) -> (r: usize)
    ensures
        r == if configured < 1 {
            1
        } else if configured > 8 {
            8
        } else {
            configured
        },
{
    if configured < 1 {
        1
    } else if configured > 8 {
        8
    } else {
        configured
    }
}

/// Seconds to wait before retry `attempt` (1 or 2): `2^attempt`.
pub fn retry_delay_secs(attempt: u32) -> (r: u64)
    requires
        1 <= attempt <= 2,
    ensures
        r == if attempt == 1 {
            2u64
        } else {
            4u64
        },
{
    if attempt == 1 {
        2
    } else {
        4
    }
}

/// Whether the body of a resumed request goes after the bytes already on
/// disk: only a 206 answer to a request that resumed from a nonzero offset.
/// Otherwise the temporary file is written anew from byte 0.
pub fn appends_to_partial(partial: bool, resume_from: u64) -> (r: bool)
    ensures
        r == (partial && resume_from > 0),
{
    partial && resume_from > 0
}

/// A whole download is first tried in parallel parts only when it starts
/// from the beginning, more than one thread is wanted, the total length is
/// known and the server supports ranges.
pub fn tries_parallel(resume_from: u64, threads: usize, total: Option<u64>, supports: bool) -> (r:
    bool)
    ensures
        r == (resume_from == 0 && threads > 1 && total is Some && supports),
{
    resume_from == 0 && threads > 1 && total.is_some() && supports
}

// ---------------------------------------------------------------------------
// Parallel ranges
// ---------------------------------------------------------------------------

/// Files smaller than this are not split.
pub open spec fn min_parallel_size() -> int {
    524288
}

/// Each part holds at least about this many bytes.
pub open spec fn part_unit() -> int {
    512000
}

/// Why a file is fetched as one stream after all.
#[derive(Clone, Copy, Debug, PartialEq, Eq, Structural)]
pub enum ParallelRefusal {
    /// One thread was asked for, or the file is under 512 KiB.
    NotBeneficial,
    /// The file is too small for more than one part.
    Collapsed,
}

/// Ceiling division.
pub open spec fn div_ceil(a: int, b: int) -> int {
    (a + b - 1) / b
}

/// The number of parts: the threads asked for, but no more than one part
/// per 512000 bytes, and at least one.
pub open spec fn part_count(total: int, threads: int) -> int {
    let by_size = div_ceil(total, part_unit());
    let t = if threads < by_size {
        threads
    } else {
        by_size
    };
    if t < 1 {
        1
    } else {
        t
    }
}

/// The size of each part but the last.
pub open spec fn chunk_size(total: int, parts: int) -> int {
    div_ceil(total, parts)
}

/// The byte range `start..=end` of part `k`.
pub open spec fn part_range(total: int, chunk: int, k: int) -> (int, int) {
    let start = k * chunk;
    let end = if start + chunk < total {
        start + chunk
    } else {
        total
    };
    (start, end - 1)
}

/// The ranges a download is split into: for parts `k = 0, 1, ...` while
/// `k * chunk < total`, the bytes from `k * chunk` up to the next part or
/// the end of the file.
pub open spec fn ranges_ok(r: Seq<(u64, u64)>, total: int, parts: int) -> bool {
    let chunk = chunk_size(total, parts);
    &&& r.len() <= parts
    &&& forall|k: int|
        0 <= k < r.len() ==> (#[trigger] r[k]).0 as int == part_range(total, chunk, k).0 && r[k].1
            as int == part_range(total, chunk, k).1 && k * chunk < total
    &&& r.len() * chunk >= total || r.len() == parts
}

/// Splits a download of `total_size` bytes into ranges for `threads`
/// parallel requests. One thread, a file under 512 KiB, or a file too small
/// for two parts of about 512000 bytes is refused.
pub fn plan_parallel_ranges(total_size: u64, threads: usize) -> (r: Result<
    Vec<(u64, u64)>,
    ParallelRefusal,
>)
    ensures
        threads <= 1 || total_size < min_parallel_size() <==> r == Err::<
            Vec<(u64, u64)>,
            ParallelRefusal,
        >(ParallelRefusal::NotBeneficial),
        !(threads <= 1 || total_size < min_parallel_size()) && part_count(
            total_size as int,
            threads as int,
        ) <= 1 <==> r == Err::<Vec<(u64, u64)>, ParallelRefusal>(ParallelRefusal::Collapsed),
        r matches Ok(v) ==> ranges_ok(
            v@,
            total_size as int,
            part_count(total_size as int, threads as int),
        ),
{
    if threads <= 1 || total_size < 512 * 1024 {
        return Err(ParallelRefusal::NotBeneficial);
    }
    let by_size: u64 = total_size / 512000 + if total_size % 512000 != 0 {
        1
    } else {
        0
    };
    assert(by_size == div_ceil(total_size as int, part_unit())) by (nonlinear_arith)
        requires
            by_size == total_size / 512000 + if total_size % 512000 != 0 {
                1int
            } else {
                0int
            },
            total_size >= 0,
    ;
    let mut t: u64 = if (threads as u64) < by_size {
        threads as u64
    } else {
        by_size
    };
    if t < 1 {
        t = 1;
    }
    assert(t == part_count(total_size as int, threads as int));
    if t <= 1 {
        return Err(ParallelRefusal::Collapsed);
    }
    assert(total_size / t < u64::MAX) by (nonlinear_arith)
        requires
            t >= 2,
            total_size <= u64::MAX,
    ;
    let chunk: u64 = total_size / t + if total_size % t != 0 {
        1
    } else {
        0
    };
    assert(chunk == chunk_size(total_size as int, t as int)) by (nonlinear_arith)
        requires
            chunk == total_size / t + if total_size % t != 0 {
                1int
            } else {
                0int
            },
            t >= 1,
            total_size >= 0,
    ;
    assert(chunk >= 1) by (nonlinear_arith)
        requires
            chunk == (total_size + (t - 1)) / (t as int),
            total_size >= 1,
            t >= 1,
    ;
    assert(chunk * t >= total_size) by (nonlinear_arith)
        requires
            chunk == (total_size + (t - 1)) / (t as int),
            t >= 1,
    ;
    let mut ranges: Vec<(u64, u64)> = Vec::new();
    let mut index: u64 = 0;
    while index < t
        invariant
            !(threads <= 1 || total_size < 524288),
            2 <= t,
            chunk >= 1,
            chunk == chunk_size(total_size as int, t as int),
            t == part_count(total_size as int, threads as int),
            chunk * t >= total_size,
            0 <= index <= t,
            ranges.len() == index,
            forall|k: int|
                0 <= k < index ==> (#[trigger] ranges@[k]).0 as int == part_range(
                    total_size as int,
                    chunk as int,
                    k,
                ).0 && ranges@[k].1 as int == part_range(total_size as int, chunk as int, k).1
                    && k * chunk < total_size,
        decreases t - index,
    {
        assert((index as u128) * (chunk as u128) <= u128::MAX) by (nonlinear_arith)
            requires
                index <= u64::MAX,
                chunk <= u64::MAX,
        ;
        let wide_start: u128 = (index as u128) * (chunk as u128);
        if wide_start >= (total_size as u128) {
            assert(ranges@.len() * chunk >= total_size);
            return Ok(ranges);
        }
        let start: u64 = wide_start as u64;
        let end: u64 = if (start as u128) + (chunk as u128) < (total_size as u128) {
            start + chunk
        } else {
            total_size
        };
        ranges.push((start, end - 1));
        index = index + 1;
    }
    Ok(ranges)
}

/// The parts of a download are the whole file in order: the first starts at
/// byte 0, each next part starts right after the one before, and the last
/// ends at the last byte.
pub proof fn law_ranges_partition(r: Seq<(u64, u64)>, total: int, parts: int)
    requires
        total >= 1,
        parts >= 1,
        ranges_ok(r, total, parts),
        r.len() > 0,
    ensures
        r[0].0 == 0,
        forall|k: int| 0 <= k < r.len() - 1 ==> #[trigger] r[k + 1].0 == r[k].1 + 1,
        forall|k: int| 0 <= k < r.len() ==> #[trigger] r[k].0 <= r[k].1,
        r[r.len() - 1].1 == total - 1,
{
    let chunk = chunk_size(total, parts);
    assert(chunk >= 1) by (nonlinear_arith)
        requires
            chunk == (total + parts - 1) / parts,
            total >= 1,
            parts >= 1,
    ;
    assert(chunk * parts >= total) by (nonlinear_arith)
        requires
            chunk == (total + parts - 1) / parts,
            parts >= 1,
    ;
    assert(r[0].0 == 0);
    assert forall|k: int| 0 <= k < r.len() - 1 implies #[trigger] r[k + 1].0 == r[k].1 + 1 by {
        assert(r[k].0 as int == part_range(total, chunk, k).0);
        assert(r[k + 1].0 == (k + 1) * chunk);
        assert((k + 1) * chunk == k * chunk + chunk) by (nonlinear_arith);
        assert((k + 1) * chunk < total);
    }
    assert forall|k: int| 0 <= k < r.len() implies #[trigger] r[k].0 <= r[k].1 by {
        assert(r[k].0 as int == part_range(total, chunk, k).0);
        assert(k * chunk < total);
    }
    let n = r.len();
    assert(r[n - 1].0 as int == part_range(total, chunk, n - 1).0);
    assert((n - 1) * chunk < total);
    assert(r[n - 1].1 as int == part_range(total, chunk, n - 1).1);
    if n == parts {
        assert(n * chunk >= total) by (nonlinear_arith)
            requires
                n == parts,
                chunk * parts >= total,
        ;
        assert((n - 1) * chunk + chunk == n * chunk) by (nonlinear_arith);
    } else {
        assert(n * chunk >= total);
        assert((n - 1) * chunk + chunk == n * chunk) by (nonlinear_arith);
    }
}

// ---------------------------------------------------------------------------
// Retries
// ---------------------------------------------------------------------------

/// A download is tried at most this many times.
pub open spec fn max_attempts() -> int {
    3
}

/// Whether an HTTP status is a success (2xx).
pub fn is_success_status(code: u16) -> (r: bool)
    ensures
        r == (200 <= code && code <= 299),
{
    200 <= code && code <= 299
}

/// Whether the answer to a ranged part request can be used: only 206.
pub fn range_part_accepted(code: u16) -> (r: bool)
    ensures
        r == (code == 206),
{
    code == 206
}

/// Why one attempt at a download failed.
pub enum DownloadFailure {
    /// The request could not be sent or answered.
    Request(String),
    /// The server answered with a status that is not a success.
    HttpStatus(u16),
    /// The body stopped arriving or could not be written.
    Interrupted(String),
    /// Every attempt was used and none recorded a failure.
    Exhausted,
}

/// The retry state of one download: attempts begun and the last failure.
pub struct DownloadRetry {
    pub attempt: u32,
    pub last_error: Option<DownloadFailure>,
}

/// Seconds to wait before attempt `a` (counting from 0): none before the
/// first, then `2^a`.
pub open spec fn spec_attempt_delay(a: int) -> int {
    if a == 0 {
        0
    } else if a == 1 {
        2
    } else {
        4
    }
}

impl DownloadRetry {
    /// No attempt begun, no failure yet.
    pub fn new() -> (r: DownloadRetry)
        ensures
            r.attempt == 0,
            r.last_error is None,
    {
        DownloadRetry { attempt: 0, last_error: None }
    }

    /// Begins the next attempt and returns the seconds to wait before it,
    /// or `None` when all three attempts were used.
    pub fn next_attempt(&mut self) -> (r: Option<u64>)
        requires
            old(self).attempt <= max_attempts(),
        ensures
            old(self).attempt < max_attempts() ==> r == Some(
                spec_attempt_delay(old(self).attempt as int) as u64,
            ) && final(self).attempt == old(self).attempt + 1,
            old(self).attempt >= max_attempts() ==> r is None && final(self).attempt == old(
                self
            ).attempt,
            final(self).attempt <= max_attempts(),
            final(self).last_error == old(self).last_error,
    {
        if self.attempt >= 3 {
            return None;
        }
        let delay: u64 = if self.attempt == 0 {
            0
        } else {
            retry_delay_secs(self.attempt)
        };
        self.attempt = self.attempt + 1;
        Some(delay)
    }

    /// Records why the current attempt failed.
    pub fn record_failure(&mut self, failure: DownloadFailure)
        ensures
            final(self).last_error == Some(failure),
            final(self).attempt == old(self).attempt,
    {
        self.last_error = Some(failure);
    }

    /// The error of a download whose attempts all failed: the last failure,
    /// else a generic one.
    pub fn final_error(self) -> (r: DownloadFailure)
        ensures
            r == match self.last_error {
                Some(f) => f,
                None => DownloadFailure::Exhausted,
            },
    {
        match self.last_error {
            Some(f) => f,
            None => DownloadFailure::Exhausted,
        }
    }
}


/// What one download attempt does with the server's answer.
pub enum AttemptPlan {
    /// The answer is not a success: the attempt failed with this failure.
    Fail(DownloadFailure),
    /// Fetch the file of `total` bytes in parallel parts; should that fail,
    /// stream it from byte 0.
    Parallel { total: u64 },
    /// Stream the body into the temporary file, after the bytes already
    /// there when `append`, else from byte 0; `total` is the file's length
    /// when known.
    Stream { append: bool, total: Option<u64> },
}

/// The plan of a download attempt from the answer to its request (status,
/// `Content-Range`, `Content-Length` and `Accept-Ranges` when visible
/// ASCII), the offset it resumed from and the threads wanted: a status
/// that is not 2xx fails the attempt; a fresh download of known length
/// from a server that takes ranges, with more than one thread, goes in
/// parallel parts; anything else streams, appending only to a 206 answer
/// to a resumed request.
pub fn plan_attempt(
    resume_from: u64,
    threads: usize,
    status: u16,
    content_range: Option<&str>,
    content_length: Option<u64>,
    accept_ranges: Option<&str>,
) -> (r: AttemptPlan)
    requires
        status == 206 ==> match content_length {
            Some(len) => len + resume_from <= u64::MAX,
            None => true,
        },
    ensures
        !(200 <= status && status <= 299) ==> r == AttemptPlan::Fail(
            DownloadFailure::HttpStatus(status),
        ),
        200 <= status && status <= 299 ==> ({
            let partial = status == 206;
            let total = spec_total_length(
                opt_str_view(content_range),
                content_length,
                partial,
                resume_from,
            );
            let supports = spec_supports_parallel(partial, opt_str_view(accept_ranges));
            if resume_from == 0 && threads > 1 && total is Some && supports {
                r matches AttemptPlan::Parallel { total: t } && total == Some(t as int)
            } else {
                r matches AttemptPlan::Stream { append, total: t } && append == (partial
                    && resume_from > 0) && match t {
                    Some(v) => total == Some(v as int),
                    None => total is None,
                }
            }
        }),
{
    if !is_success_status(status) {
        return AttemptPlan::Fail(DownloadFailure::HttpStatus(status));
    }
    let partial = status == 206;
    let total = response_total_length(content_range, content_length, partial, resume_from);
    let supports = supports_parallel_download(partial, accept_ranges);
    if tries_parallel(resume_from, threads, total, supports) {
        match total {
            Some(t) => AttemptPlan::Parallel { total: t },
            None => AttemptPlan::Stream { append: false, total: None },
        }
    } else {
        AttemptPlan::Stream { append: appends_to_partial(partial, resume_from), total }
    }
}

} // verus!
