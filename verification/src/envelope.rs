//! The on-disk entry envelope.
//!
//! An entry is stored as one JSON object,
//! `{"data":<payload>,"timestamp":"<RFC 3339>","ttl_minutes":<integer>}`,
//! where the payload is an arbitrary piece of text that the cache never
//! inspects. Encoding builds exactly that shape; decoding reads it back by
//! scanning from the fixed frame at the end of the text, so any payload at
//! all round-trips unchanged.

use vstd::prelude::*;
use vstd::string::StrSliceExecFns;
use vstd::string::StringExecFns;

use crate::digits::all_digits;
use crate::digits::dec_int;
use crate::digits::digit_val;
use crate::digits::digits_val;
use crate::digits::is_digit;
use crate::digits::i64_to_dec_string;
use crate::digits::lemma_digits_val_bounds;
use crate::time::format_rfc3339_micros;
use crate::time::now_epoch_micros;
use crate::time::parse_rfc3339_micros;
use crate::time::quote_free;
use crate::time::rfc3339_of;
use crate::time::rfc3339_val;
use crate::time::MICROS_AT_YEAR_9999;

verus! {

/// How a cache operation fails: the entry text could not be produced, or a
/// present file's text does not have the entry shape.
#[derive(Debug, Clone, Copy, PartialEq, Eq, Structural)]
pub enum CacheError {
    Serialization,
    Deserialization,
}

/// One cached value together with its envelope fields: the payload text, the
/// moment it was written, and its lifetime in minutes.
#[derive(Debug)]
pub struct CacheEntry {
    pub data: String,
    pub timestamp_micros: i64,
    pub ttl_minutes: i64,
}

/// An entry written at `ts` with lifetime `ttl` minutes is expired at `now`
/// once `now` lies strictly past the deadline `ts + ttl` minutes. A zero or
/// negative lifetime puts the deadline at or before the write itself.
pub open spec fn expired_spec(ts: int, ttl: int, now: int) -> bool {
    now > ts + ttl * 60_000_000
}

/// Whole minutes elapsed from `ts` to `now`, truncated toward zero.
pub open spec fn age_minutes_spec(ts: int, now: int) -> int {
    if now >= ts {
        (now - ts) / 60_000_000
    } else {
        -((ts - now) / 60_000_000)
    }
}

impl CacheEntry {
    /// Wraps a payload with the current wall-clock time and the given
    /// lifetime.
    pub fn new(data: String, ttl_minutes: i64) -> (e: CacheEntry)
        ensures
            e.data == data,
            e.ttl_minutes == ttl_minutes,
    {
        CacheEntry { data, timestamp_micros: now_epoch_micros(), ttl_minutes }
    }

    /// Whether this entry is expired at the given moment.
    pub fn is_expired_at(&self, now_micros: i64) -> (r: bool)
        ensures
            r == expired_spec(
                self.timestamp_micros as int,
                self.ttl_minutes as int,
                now_micros as int,
            ),
    {
        (now_micros as i128) > (self.timestamp_micros as i128) + (self.ttl_minutes as i128)
            * 60_000_000i128
    }

    /// Whether this entry is expired at the wall-clock time of the call.
    pub fn is_expired(&self) -> (r: bool)
        ensures
            exists|now: i64|
                r == expired_spec(self.timestamp_micros as int, self.ttl_minutes as int, now as int),
    {
        let now = now_epoch_micros();
        self.is_expired_at(now)
    }

    /// Whole minutes this entry has existed as of the given moment.
    pub fn age_minutes_at(&self, now_micros: i64) -> (r: i64)
        ensures
            r as int == age_minutes_spec(self.timestamp_micros as int, now_micros as int),
    {
        let ts = self.timestamp_micros as i128;
        let now = now_micros as i128;
        if now >= ts {
            ((now - ts) / 60_000_000i128) as i64
        } else {
            (-((ts - now) / 60_000_000i128)) as i64
        }
    }
}

/// The fixed opening of the envelope, before the payload.
pub open spec fn lit_data() -> Seq<char> {
    "{\"data\":"@
}

/// The frame between the payload and the timestamp text.
pub open spec fn lit_ts() -> Seq<char> {
    ",\"timestamp\":\""@
}

/// The frame between the timestamp text and the lifetime.
pub open spec fn lit_ttl() -> Seq<char> {
    "\",\"ttl_minutes\":"@
}

/// The envelope text of an entry whose timestamp renders as `tstr`.
pub open spec fn encode_spec(data: Seq<char>, tstr: Seq<char>, ttl: i64) -> Seq<char> {
    lit_data() + data + lit_ts() + tstr + lit_ttl() + dec_int(ttl as int) + "}"@
}

/// The least index `j <= end` with `s[j..end]` all digits and no digit just
/// before `j`: where the digit run that ends at `end` begins.
pub open spec fn digit_run_start(s: Seq<char>, end: int) -> int
    decreases end,
{
    if end <= 0 {
        0
    } else if is_digit(s[end - 1]) {
        digit_run_start(s, end - 1)
    } else {
        end
    }
}

/// Where the quote-free run that ends at `end` begins.
pub open spec fn nonquote_run_start(s: Seq<char>, end: int) -> int
    decreases end,
{
    if end <= 0 {
        0
    } else if s[end - 1] != '"' {
        nonquote_run_start(s, end - 1)
    } else {
        end
    }
}

/// Reads an envelope back into its three parts: payload text, timestamp
/// text, lifetime. The scan walks inward from the closing brace — lifetime
/// digits, the `ttl_minutes` frame, the quoted timestamp, the `timestamp`
/// frame — and finally checks the opening frame; everything between the
/// opening frame and the `timestamp` frame is the payload.
pub open spec fn decode_spec(s: Seq<char>) -> Option<(Seq<char>, Seq<char>, i64)> {
    let n = s.len() as int;
    if n < 1 || s[n - 1] != '}' {
        None
    } else {
        let num_end = n - 1;
        let dstart = digit_run_start(s, num_end);
        if dstart >= num_end {
            None
        } else {
            let neg = dstart > 0 && s[dstart - 1] == '-';
            let num_start = if neg {
                dstart - 1
            } else {
                dstart
            };
            let ttl_lit_start = num_start - lit_ttl().len();
            if ttl_lit_start < 0 || s.subrange(ttl_lit_start, num_start) != lit_ttl() {
                None
            } else {
                let ts_end = ttl_lit_start;
                let ts_start = nonquote_run_start(s, ts_end);
                let ts_lit_start = ts_start - lit_ts().len();
                if ts_lit_start < 0 || s.subrange(ts_lit_start, ts_start) != lit_ts() {
                    None
                } else {
                    let data_end = ts_lit_start;
                    let data_start = lit_data().len() as int;
                    if data_end < data_start || s.subrange(0, data_start) != lit_data() {
                        None
                    } else {
                        let v = digits_val(s.subrange(dstart, num_end));
                        let val = if neg {
                            -v
                        } else {
                            v
                        };
                        if val < i64::MIN as int || val > i64::MAX as int {
                            None
                        } else {
                            Some(
                                (
                                    s.subrange(data_start, data_end),
                                    s.subrange(ts_start, ts_end),
                                    val as i64,
                                ),
                            )
                        }
                    }
                }
            }
        }
    }
}

/// The entry a file's text denotes: its envelope parts, with the timestamp
/// text read as a moment in time; `None` where either step fails.
pub open spec fn entry_parts_spec(c: Seq<char>) -> Option<(Seq<char>, i64, i64)> {
    match decode_spec(c) {
        None => None,
        Some((data, tstr, ttl)) => match rfc3339_val(tstr) {
            None => None,
            Some(t) => Some((data, t, ttl)),
        },
    }
}

/// What `decode_entry` returns for a file text: exactly the denoted entry,
/// or the deserialization error where the text denotes none.
pub open spec fn decode_post(c: Seq<char>, r: Result<CacheEntry, CacheError>) -> bool {
    match r {
        Ok(e) => entry_parts_spec(c) == Some((e.data@, e.timestamp_micros, e.ttl_minutes)),
        Err(er) => er == CacheError::Deserialization && entry_parts_spec(c) is None,
    }
}

fn is_digit_char(c: char) -> (b: bool)
    ensures
        b == is_digit(c),
{
    let u = c as u32;
    48 <= u && u <= 57
}

proof fn lemma_digit_run_start_at(s: Seq<char>, start: int, end: int)
    requires
        0 <= start <= end <= s.len(),
        forall|i: int| start <= i < end ==> is_digit(s[i]),
        start == 0 || !is_digit(s[start - 1]),
    ensures
        digit_run_start(s, end) == start,
    decreases end - start,
{
    if end > start {
        lemma_digit_run_start_at(s, start, end - 1);
    }
}

proof fn lemma_nonquote_run_start_at(s: Seq<char>, start: int, end: int)
    requires
        0 <= start <= end <= s.len(),
        forall|i: int| start <= i < end ==> s[i] != '"',
        start == 0 || s[start - 1] == '"',
    ensures
        nonquote_run_start(s, end) == start,
    decreases end - start,
{
    if end > start {
        lemma_nonquote_run_start_at(s, start, end - 1);
    }
}

fn find_digit_run_start(s: &str, end: usize) -> (r: usize)
    requires
        end <= s@.len(),
    ensures
        r as int == digit_run_start(s@, end as int),
        r <= end,
{
    let mut i = end;
    while i > 0 && is_digit_char(s.get_char(i - 1))
        invariant
            i <= end <= s@.len(),
            digit_run_start(s@, end as int) == digit_run_start(s@, i as int),
        decreases i,
    {
        i = i - 1;
    }
    i
}

fn find_nonquote_run_start(s: &str, end: usize) -> (r: usize)
    requires
        end <= s@.len(),
    ensures
        r as int == nonquote_run_start(s@, end as int),
        r <= end,
{
    let mut i = end;
    while i > 0 && s.get_char(i - 1) != '"'
        invariant
            i <= end <= s@.len(),
            nonquote_run_start(s@, end as int) == nonquote_run_start(s@, i as int),
        decreases i,
    {
        i = i - 1;
    }
    i
}

fn matches_at(s: &str, pos: usize, lit: &str) -> (r: bool)
    requires
        pos + lit@.len() <= s@.len(),
    ensures
        r == (s@.subrange(pos as int, pos as int + lit@.len() as int) == lit@),
{
    let n = lit.unicode_len();
    let sl = s.unicode_len();
    let mut i: usize = 0;
    while i < n
        invariant
            i <= n,
            n == lit@.len(),
            sl == s@.len(),
            pos + n <= s@.len(),
            forall|j: int| 0 <= j < i ==> s@[pos + j] == lit@[j],
        decreases n - i,
    {
        if s.get_char(pos + i) != lit.get_char(i) {
            proof {
                assert(s@.subrange(pos as int, pos as int + lit@.len() as int)[i as int] != lit@[
                    i as int
                ]);
            }
            return false;
        }
        i = i + 1;
    }
    proof {
        assert(s@.subrange(pos as int, pos as int + lit@.len() as int) =~= lit@);
    }
    true
}

proof fn lemma_digits_val_take(s: Seq<char>, j: int)
    requires
        all_digits(s),
        0 <= j <= s.len(),
    ensures
        digits_val(s.take(j)) <= digits_val(s),
        digits_val(s.take(j)) >= 0,
    decreases s.len() - j,
{
    assert(all_digits(s.take(j)));
    lemma_digits_val_bounds(s.take(j));
    if j < s.len() {
        lemma_digits_val_take(s, j + 1);
        assert(s.take(j + 1).drop_last() =~= s.take(j));
        assert(s.take(j + 1).last() == s[j]);
        assert(is_digit(s[j]));
        assert(digits_val(s.take(j + 1)) == digits_val(s.take(j)) * 10 + digit_val(s[j]));
    } else {
        assert(s.take(j) =~= s);
    }
}

fn parse_digits_u64(s: &str, lo: usize, hi: usize) -> (r: Option<u64>)
    requires
        lo < hi <= s@.len(),
        all_digits(s@.subrange(lo as int, hi as int)),
    ensures
        match r {
            Some(v) => v as int == digits_val(s@.subrange(lo as int, hi as int)),
            None => digits_val(s@.subrange(lo as int, hi as int)) > u64::MAX,
        },
{
    let ghost whole = s@.subrange(lo as int, hi as int);
    let mut acc: u64 = 0;
    let mut i = lo;
    while i < hi
        invariant
            lo <= i <= hi <= s@.len(),
            all_digits(whole),
            whole == s@.subrange(lo as int, hi as int),
            acc as int == digits_val(s@.subrange(lo as int, i as int)),
        decreases hi - i,
    {
        let c = s.get_char(i);
        proof {
            assert(whole[i - lo] == s@[i as int]);
            assert(is_digit(s@[i as int]));
        }
        let u = c as u32;
        let d = (u - 48) as u64;
        if acc > (u64::MAX - d) / 10 {
            proof {
                let pre = s@.subrange(lo as int, (i + 1) as int);
                assert(pre.drop_last() =~= s@.subrange(lo as int, i as int));
                assert(pre.last() == s@[i as int]);
                assert(digit_val(s@[i as int]) == d);
                assert(digits_val(pre) == acc * 10 + d);
                assert(acc * 10 + d > u64::MAX) by {
                    assert(acc >= (u64::MAX - d) / 10 + 1);
                    vstd::arithmetic::div_mod::lemma_fundamental_div_mod(
                        u64::MAX as int - d,
                        10,
                    );
                };
                assert(forall|k: int| 0 <= k < whole.len() ==> is_digit(whole[k]));
                lemma_digits_val_take(whole, i + 1 - lo);
                assert(whole.take(i + 1 - lo) =~= pre);
            }
            return None;
        }
        acc = acc * 10 + d;
        proof {
            let pre = s@.subrange(lo as int, (i + 1) as int);
            assert(pre.drop_last() =~= s@.subrange(lo as int, i as int));
            assert(pre.last() == s@[i as int]);
            assert(digit_val(s@[i as int]) == d);
        }
        i = i + 1;
    }
    proof {
        assert(s@.subrange(lo as int, i as int) =~= whole);
    }
    Some(acc)
}

/// Builds the envelope text for an entry. Fails only where the timestamp
/// lies too far outside the years 0 to 9999 to be rendered.
pub fn encode_entry(e: &CacheEntry) -> (r: Result<String, CacheError>)
    ensures
        r matches Ok(s) ==> s@ == encode_spec(
            e.data@,
            rfc3339_of(e.timestamp_micros),
            e.ttl_minutes,
        ) && quote_free(rfc3339_of(e.timestamp_micros)) && (0 <= e.timestamp_micros
            <= MICROS_AT_YEAR_9999 ==> rfc3339_val(rfc3339_of(e.timestamp_micros)) == Some(
            e.timestamp_micros,
        )),
        r matches Err(er) ==> er == CacheError::Serialization && !(0 <= e.timestamp_micros
            <= MICROS_AT_YEAR_9999),
{
    let tstr = match format_rfc3339_micros(e.timestamp_micros) {
        None => {
            return Err(CacheError::Serialization);
        },
        Some(t) => t,
    };
    let mut out = "{\"data\":".to_owned();
    out.append(e.data.as_str());
    out.append(",\"timestamp\":\"");
    out.append(tstr.as_str());
    out.append("\",\"ttl_minutes\":");
    let ttl_str = i64_to_dec_string(e.ttl_minutes);
    out.append(ttl_str.as_str());
    out.append("}");
    proof {
        assert(out@ =~= encode_spec(e.data@, rfc3339_of(e.timestamp_micros), e.ttl_minutes));
    }
    Ok(out)
}

/// Reads an envelope text back into an entry; the deserialization error
/// where the text does not have the envelope shape or its timestamp text
/// does not parse.
pub fn decode_entry(content: &str) -> (r: Result<CacheEntry, CacheError>)
    ensures
        decode_post(content@, r),
{
    let n = content.unicode_len();
    if n == 0 {
        return Err(CacheError::Deserialization);
    }
    if content.get_char(n - 1) != '}' {
        return Err(CacheError::Deserialization);
    }
    let num_end = n - 1;
    let dstart = find_digit_run_start(content, num_end);
    if dstart >= num_end {
        return Err(CacheError::Deserialization);
    }
    proof {
        lemma_digit_run_between(content@, num_end as int);
    }
    let neg = dstart > 0 && content.get_char(dstart - 1) == '-';
    let num_start = if neg {
        dstart - 1
    } else {
        dstart
    };
    let lit_ttl_str = "\",\"ttl_minutes\":";
    let ttl_lit_len = lit_ttl_str.unicode_len();
    if num_start < ttl_lit_len {
        return Err(CacheError::Deserialization);
    }
    let ttl_lit_start = num_start - ttl_lit_len;
    if !matches_at(content, ttl_lit_start, lit_ttl_str) {
        return Err(CacheError::Deserialization);
    }
    let ts_end = ttl_lit_start;
    let ts_start = find_nonquote_run_start(content, ts_end);
    let lit_ts_str = ",\"timestamp\":\"";
    let ts_lit_len = lit_ts_str.unicode_len();
    if ts_start < ts_lit_len {
        return Err(CacheError::Deserialization);
    }
    let ts_lit_start = ts_start - ts_lit_len;
    if !matches_at(content, ts_lit_start, lit_ts_str) {
        return Err(CacheError::Deserialization);
    }
    let data_end = ts_lit_start;
    let lit_data_str = "{\"data\":";
    let data_start = lit_data_str.unicode_len();
    if data_end < data_start {
        return Err(CacheError::Deserialization);
    }
    if !matches_at(content, 0, lit_data_str) {
        return Err(CacheError::Deserialization);
    }
    let magnitude = match parse_digits_u64(content, dstart, num_end) {
        None => {
            return Err(CacheError::Deserialization);
        },
        Some(v) => v,
    };
    let ttl: i64 = if neg {
        if magnitude > 0x8000_0000_0000_0000u64 {
            return Err(CacheError::Deserialization);
        }
        (-(magnitude as i128)) as i64
    } else {
        if magnitude > i64::MAX as u64 {
            return Err(CacheError::Deserialization);
        }
        magnitude as i64
    };
    let tstr = content.substring_char(ts_start, ts_end);
    let t = match parse_rfc3339_micros(tstr) {
        None => {
            return Err(CacheError::Deserialization);
        },
        Some(t) => t,
    };
    let data = String::from_str(content.substring_char(data_start, data_end));
    Ok(CacheEntry { data, timestamp_micros: t, ttl_minutes: ttl })
}

proof fn lemma_digit_run_between(s: Seq<char>, end: int)
    requires
        0 <= end <= s.len(),
    ensures
        0 <= digit_run_start(s, end) <= end,
        forall|i: int| digit_run_start(s, end) <= i < end ==> is_digit(s[i]),
        digit_run_start(s, end) > 0 ==> !is_digit(s[digit_run_start(s, end) - 1]),
    decreases end,
{
    if end > 0 && is_digit(s[end - 1]) {
        lemma_digit_run_between(s, end - 1);
    }
}

proof fn lemma_nonquote_run_between(s: Seq<char>, end: int)
    requires
        0 <= end <= s.len(),
    ensures
        0 <= nonquote_run_start(s, end) <= end,
        forall|i: int| nonquote_run_start(s, end) <= i < end ==> s[i] != '"',
        nonquote_run_start(s, end) > 0 ==> s[nonquote_run_start(s, end) - 1] == '"',
    decreases end,
{
    if end > 0 && s[end - 1] != '"' {
        lemma_nonquote_run_between(s, end - 1);
    }
}

/// Decoding reads back exactly what encoding wrote: for any payload at all,
/// any lifetime, and any quote-free timestamp text, the envelope of the
/// three parts denotes those parts and no others.
pub proof fn lemma_decode_encode(data: Seq<char>, tstr: Seq<char>, ttl: i64)
    requires
        quote_free(tstr),
    ensures
        decode_spec(encode_spec(data, tstr, ttl)) == Some((data, tstr, ttl)),
{
    reveal_strlit("{\"data\":");
    reveal_strlit(",\"timestamp\":\"");
    reveal_strlit("\",\"ttl_minutes\":");
    reveal_strlit("}");
    reveal_strlit("-");
    let s = encode_spec(data, tstr, ttl);
    let dl = data.len() as int;
    let tl = tstr.len() as int;
    let num = dec_int(ttl as int);
    let nl = num.len() as int;
    let mag = if ttl < 0 {
        (-(ttl as int)) as nat
    } else {
        ttl as nat
    };
    crate::digits::lemma_dec_digits_shape(mag);
    crate::digits::lemma_digits_val_dec_digits(mag);
    let n = s.len() as int;
    assert(n == 8 + dl + 14 + tl + 16 + nl + 1);
    let num_start = 38 + dl + tl;
    let num_end = n - 1;
    assert(s[n - 1] == '}');
    // The digit run ending at the closing brace is exactly the digits of the
    // rendered lifetime.
    let dstart = if ttl < 0 {
        num_start + 1
    } else {
        num_start
    };
    assert forall|i: int| dstart <= i < num_end implies is_digit(s[i]) by {
        if ttl < 0 {
            assert(s[i] == num[i - num_start]);
            assert(num[i - num_start] == crate::digits::dec_digits(mag)[i - num_start - 1]);
        } else {
            assert(s[i] == num[i - num_start]);
        }
    }
    if ttl < 0 {
        assert(s[dstart - 1] == num[0]);
        assert(num[0] == '-');
        assert(!is_digit('-'));
    } else {
        assert(s[dstart - 1] == lit_ttl()[15]);
        assert(lit_ttl()[15] == ':');
        assert(!is_digit(':'));
    }
    lemma_digit_run_start_at(s, dstart, num_end);
    assert(digit_run_start(s, num_end) == dstart);
    assert(dstart < num_end);
    let neg = dstart > 0 && s[dstart - 1] == '-';
    if ttl >= 0 {
        assert(s[dstart - 1] == ':');
        assert(!neg);
    } else {
        assert(neg);
    }
    let nstart = if neg {
        dstart - 1
    } else {
        dstart
    };
    assert(nstart == num_start);
    // The `ttl_minutes` frame sits just before the number.
    assert(s.subrange(num_start - 16, num_start) =~= lit_ttl());
    let ts_end = num_start - 16;
    assert(ts_end == 22 + dl + tl);
    let ts_start = 22 + dl;
    assert forall|i: int| ts_start <= i < ts_end implies s[i] != '"' by {
        assert(s[i] == tstr[i - ts_start]);
    }
    assert(s[ts_start - 1] == lit_ts()[13]);
    assert(lit_ts()[13] == '"');
    lemma_nonquote_run_start_at(s, ts_start, ts_end);
    assert(nonquote_run_start(s, ts_end) == ts_start);
    // The `timestamp` frame sits just before the timestamp text.
    assert(s.subrange(ts_start - 14, ts_start) =~= lit_ts());
    let data_end = ts_start - 14;
    assert(data_end == 8 + dl);
    assert(s.subrange(0, 8) =~= lit_data());
    // The number region reads back as the lifetime.
    assert(s.subrange(dstart, num_end) =~= crate::digits::dec_digits(mag));
    assert(digits_val(s.subrange(dstart, num_end)) == mag);
    let v = digits_val(s.subrange(dstart, num_end));
    let val = if neg {
        -v
    } else {
        v
    };
    assert(val == ttl as int);
    assert(s.subrange(8, data_end) =~= data);
    assert(s.subrange(ts_start, ts_end) =~= tstr);
}

} // verus!
