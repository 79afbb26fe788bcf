//! Over-the-air updates: version comparison, the update state machine, checksum
//! verification and the reports of the update endpoints.
use vstd::prelude::*;
use crate::json::{report_view, JsonField, JsonVal};
use crate::text::{concat2, decimal, decimal_string, lemma_split_nonempty, split_on, split_text};

verus! {

/// Update settings.
#[derive(Debug, Clone)]
pub struct UpdateConfig {
    pub auto_check_updates: bool,
    pub check_interval_seconds: u64,
    pub update_server_url: String,
    pub current_version: String,
    pub download_dir: String,
    pub allow_downgrades: bool,
    pub backup_old_version: bool,
    pub max_retry_attempts: u32,
    pub update_timeout_seconds: u64,
}

impl UpdateConfig {
    /// Hourly checks against https://updates.example.com, this package's version (0.1.0),
    /// downloads into ./updates, no downgrades, backups kept, three retries, five
    /// minutes per update.
    pub fn default() -> (c: UpdateConfig)
        ensures
            c.auto_check_updates,
            c.check_interval_seconds == 3600,
            c.update_server_url@ == "https://updates.example.com"@,
            c.current_version@ == "0.1.0"@,
            c.download_dir@ == "./updates"@,
            !c.allow_downgrades,
            c.backup_old_version,
            c.max_retry_attempts == 3,
            c.update_timeout_seconds == 300,
    {
        UpdateConfig {
            auto_check_updates: true,
            check_interval_seconds: 3600,
            update_server_url: String::from_str("https://updates.example.com"),
            current_version: String::from_str("0.1.0"),
            download_dir: String::from_str("./updates"),
            allow_downgrades: false,
            backup_old_version: true,
            max_retry_attempts: 3,
            update_timeout_seconds: 300,
        }
    }
}

/// A published version.
#[derive(Debug, Clone)]
pub struct VersionInfo {
    pub version: String,
    /// Release date, RFC 3339.
    pub release_date: String,
    pub changelog: Vec<String>,
    pub minimum_version: Option<String>,
    pub download_url: String,
    pub checksum: String,
    pub checksum_algorithm: String,
    pub size_bytes: u64,
    pub mandatory: bool,
}

/// Where the update process stands.
#[derive(Debug, Clone)]
pub enum UpdateStatus {
    UpToDate,
    Available(VersionInfo),
    /// Bytes of `version` received so far, of `total_bytes`.
    Downloading { version: String, downloaded_bytes: u64, total_bytes: u64 },
    Downloaded(String),
    Installing(String),
    Installed(String),
    Failed { version: String, error: String, can_retry: bool },
    RollingBack(String),
    RolledBack(String),
}

/// How an update ended.
#[derive(Debug, Clone)]
pub enum UpdateResult {
    Success,
    Failed(String),
    RolledBack(String),
}

/// An applied update.
#[derive(Debug, Clone)]
pub struct UpdateRecord {
    pub version: String,
    /// When it was applied, RFC 3339.
    pub update_time: String,
    pub result: UpdateResult,
    pub details: Option<String>,
}

/// Why a text is not a number.
#[derive(Debug, Clone, Copy, PartialEq, Eq, Structural)]
pub enum ParseFault {
    Empty,
    InvalidDigit,
    Overflow,
}

/// The text std gives each fault of parsing an integer.
pub open spec fn parse_fault_text(f: ParseFault) -> Seq<char> {
    match f {
        ParseFault::Empty => "cannot parse integer from empty string"@,
        ParseFault::InvalidDigit => "invalid digit found in string"@,
        ParseFault::Overflow => "number too large to fit in target type"@,
    }
}

pub open spec fn is_digit(c: char) -> bool {
    '0' <= c && c <= '9'
}

/// The value of a string of decimal digits.
pub open spec fn digits_value(s: Seq<char>) -> nat
    decreases s.len(),
{
    if s.len() == 0 {
        0
    } else {
        digits_value(s.drop_last()) * 10 + (s.last() as nat - '0' as nat) as nat
    }
}

/// Index of the first character of `s` that is not a digit, or its length.
pub open spec fn first_non_digit(s: Seq<char>) -> int
    decreases s.len(),
{
    if s.len() == 0 {
        0
    } else if !is_digit(s[0]) {
        0
    } else {
        1 + first_non_digit(s.drop_first())
    }
}

/// `u32` parsing as std does it: an optional `+`, then decimal digits.  The
/// first fault met reading left to right is reported: a non-digit, or a value
/// that no longer fits.
pub open spec fn parse_u32(s: Seq<char>) -> Result<u32, ParseFault> {
    if s.len() == 0 {
        Err(ParseFault::Empty)
    } else if s.len() == 1 && s[0] == '+' {
        Err(ParseFault::InvalidDigit)
    } else {
        let digits = if s[0] == '+' { s.drop_first() } else { s };
        let k = first_non_digit(digits);
        if digits_value(digits.take(k)) > u32::MAX {
            Err(ParseFault::Overflow)
        } else if k < digits.len() {
            Err(ParseFault::InvalidDigit)
        } else {
            Ok(digits_value(digits) as u32)
        }
    }
}

proof fn lemma_first_non_digit(s: Seq<char>)
    ensures
        0 <= first_non_digit(s) <= s.len(),
        forall|i: int| 0 <= i < first_non_digit(s) ==> is_digit(#[trigger] s[i]),
        first_non_digit(s) < s.len() ==> !is_digit(s[first_non_digit(s)]),
    decreases s.len(),
{
    if s.len() > 0 && is_digit(s[0]) {
        lemma_first_non_digit(s.drop_first());
        assert forall|i: int| 0 <= i < first_non_digit(s) implies is_digit(#[trigger] s[i]) by {
            if i > 0 {
                assert(s[i] == s.drop_first()[i - 1]);
            }
        }
    }
}

proof fn lemma_digits_value_monotone(s: Seq<char>, i: int, j: int)
    requires
        0 <= i <= j <= s.len(),
        forall|t: int| 0 <= t < s.len() ==> is_digit(#[trigger] s[t]),
    ensures
        digits_value(s.take(i)) <= digits_value(s.take(j)),
    decreases j - i,
{
    if i < j {
        lemma_digits_value_monotone(s, i, j - 1);
        assert(s.take(j).drop_last() =~= s.take(j - 1));
    }
}

fn digit_value(c: char) -> (d: u64)
    requires
        is_digit(c),
    ensures
        d == c as nat - '0' as nat,
{
    if c == '0' { 0 }
    else if c == '1' { 1 }
    else if c == '2' { 2 }
    else if c == '3' { 3 }
    else if c == '4' { 4 }
    else if c == '5' { 5 }
    else if c == '6' { 6 }
    else if c == '7' { 7 }
    else if c == '8' { 8 }
    else { 9 }
}

fn is_digit_char(c: char) -> (b: bool)
    ensures
        b == is_digit(c),
{
    '0' <= c && c <= '9'
}

/// Parses a `u32` as std does.
pub fn parse_u32_text(s: &str) -> (r: Result<u32, ParseFault>)
    ensures
        r == parse_u32(s@),
{
    let cs = crate::text::chars_of(s);
    if cs.len() == 0 {
        return Err(ParseFault::Empty);
    }
    if cs.len() == 1 && cs[0] == '+' {
        return Err(ParseFault::InvalidDigit);
    }
    let start: usize = if cs[0] == '+' { 1 } else { 0 };
    let ghost digits = if cs@[0] == '+' { cs@.drop_first() } else { cs@ };
    proof {
        lemma_first_non_digit(digits);
    }
    let mut value: u64 = 0;
    let mut i: usize = start;
    while i < cs.len()
        invariant
            cs@ == s@,
            cs@.len() >= 1,
            start == (if cs@[0] == '+' { 1int } else { 0 }),
            digits == cs@.subrange(start as int, cs@.len() as int),
            digits == (if cs@[0] == '+' { cs@.drop_first() } else { cs@ }),
            !(cs@.len() == 1 && cs@[0] == '+'),
            start <= i <= cs@.len(),
            forall|t: int| 0 <= t < i - start ==> is_digit(#[trigger] digits[t]),
            value == digits_value(digits.take(i - start)),
            value <= u32::MAX,
            0 <= first_non_digit(digits) <= digits.len(),
            forall|t: int| 0 <= t < first_non_digit(digits) ==> is_digit(#[trigger] digits[t]),
            first_non_digit(digits) < digits.len() ==> !is_digit(digits[first_non_digit(digits)]),
        decreases cs@.len() - i,
    {
        let c = cs[i];
        assert(c == digits[i - start]);
        if !is_digit_char(c) {
            proof {
                assert(first_non_digit(digits) == i - start) by {
                    if first_non_digit(digits) < i - start {
                        assert(is_digit(digits[first_non_digit(digits)]));
                    }
                }
                assert(parse_u32(s@) == Err::<u32, ParseFault>(ParseFault::InvalidDigit));
            }
            return Err(ParseFault::InvalidDigit);
        }
        let next = value * 10 + digit_value(c);
        proof {
            assert(digits.take(i - start + 1).drop_last() =~= digits.take(i - start));
            assert(digits.take(i - start + 1).last() == c);
            assert(next == digits_value(digits.take(i - start + 1)));
        }
        if next > 4294967295u64 {
            proof {
                let k = first_non_digit(digits);
                assert(k >= i - start + 1) by {
                    if k < i - start + 1 {
                        if k < i - start {
                            assert(is_digit(digits[k]));
                        } else {
                            assert(is_digit(digits[k]));
                        }
                    }
                }
                let pre = digits.take(k);
                assert forall|t: int| 0 <= t < pre.len() implies is_digit(#[trigger] pre[t]) by {
                    assert(pre[t] == digits[t]);
                }
                lemma_digits_value_monotone(pre, i - start + 1, k);
                assert(pre.take(i - start + 1) =~= digits.take(i - start + 1));
                assert(pre.take(k) =~= pre);
                assert(parse_u32(s@) == Err::<u32, ParseFault>(ParseFault::Overflow));
            }
            return Err(ParseFault::Overflow);
        }
        value = next;
        i += 1;
    }
    proof {
        assert(digits.take(digits.len() as int) =~= digits);
        assert(first_non_digit(digits) == digits.len()) by {
            if first_non_digit(digits) < digits.len() {
                assert(is_digit(digits[first_non_digit(digits)]));
            }
        }
    }
    Ok(value as u32)
}


/// Why two versions cannot be compared.
#[derive(Debug, Clone, Copy, PartialEq, Eq, Structural)]
pub enum VersionError {
    /// They have different numbers of parts.
    FormatMismatch,
    /// A part is not a number.
    BadPart(ParseFault),
}

/// The text of a comparison error.
pub open spec fn version_error_text(e: VersionError) -> Seq<char> {
    match e {
        VersionError::FormatMismatch => "Version format mismatch"@,
        VersionError::BadPart(f) => parse_fault_text(f),
    }
}

/// Compares part lists of equal length from the first part on: whether `new` is
/// greater.  Each current part is parsed before the new part beside it; the first
/// that does not parse is the error.
pub open spec fn compare_parts(cur: Seq<Seq<char>>, new: Seq<Seq<char>>) -> Result<bool, VersionError>
    decreases cur.len(),
{
    if cur.len() == 0 || new.len() == 0 {
        Ok(false)
    } else {
        match parse_u32(cur[0]) {
            Err(f) => Err(VersionError::BadPart(f)),
            Ok(c) => match parse_u32(new[0]) {
                Err(f) => Err(VersionError::BadPart(f)),
                Ok(n) => if n > c {
                    Ok(true)
                } else if n < c {
                    Ok(false)
                } else {
                    compare_parts(cur.drop_first(), new.drop_first())
                },
            },
        }
    }
}

/// Whether `new` is a newer version than `current`: both cut at dots into the
/// same number of numeric parts, compared part by part.
pub open spec fn newer_version(current: Seq<char>, new: Seq<char>) -> Result<bool, VersionError> {
    let c = split_on(current, '.');
    let n = split_on(new, '.');
    if c.len() != n.len() {
        Err(VersionError::FormatMismatch)
    } else {
        compare_parts(c, n)
    }
}

/// Whether version `new` is newer than version `current`.
pub fn is_newer_version(current: &str, new: &str) -> (r: Result<bool, VersionError>)
    ensures
        r == newer_version(current@, new@),
{
    let cur = split_text(current, '.');
    let nw = split_text(new, '.');
    let ghost cs = cur@.map_values(|s: String| s@);
    let ghost ns = nw@.map_values(|s: String| s@);
    if cur.len() != nw.len() {
        return Err(VersionError::FormatMismatch);
    }
    assert(cs.skip(0) =~= cs);
    assert(ns.skip(0) =~= ns);
    let mut i: usize = 0;
    while i < cur.len()
        invariant
            cs == cur@.map_values(|s: String| s@),
            ns == nw@.map_values(|s: String| s@),
            cs == split_on(current@, '.'),
            ns == split_on(new@, '.'),
            cur@.len() == nw@.len(),
            i <= cur@.len(),
            compare_parts(cs, ns) == compare_parts(cs.skip(i as int), ns.skip(i as int)),
        decreases cur@.len() - i,
    {
        let ghost cs_i = cs.skip(i as int);
        let ghost ns_i = ns.skip(i as int);
        assert(cs_i[0] == cur@[i as int]@);
        assert(ns_i[0] == nw@[i as int]@);
        let c = match parse_u32_text(cur[i].as_str()) {
            Ok(v) => v,
            Err(f) => {
                return Err(VersionError::BadPart(f));
            },
        };
        let n = match parse_u32_text(nw[i].as_str()) {
            Ok(v) => v,
            Err(f) => {
                return Err(VersionError::BadPart(f));
            },
        };
        if n > c {
            return Ok(true);
        } else if n < c {
            return Ok(false);
        }
        assert(cs_i.drop_first() =~= cs.skip(i + 1));
        assert(ns_i.drop_first() =~= ns.skip(i + 1));
        i += 1;
    }
    assert(cs.skip(i as int).len() == 0);
    Ok(false)
}

/// Comparing part lists is antisymmetric: if `b` is newer than `a`, `a` is not
/// newer than `b`.
pub proof fn lemma_compare_parts_antisymmetric(a: Seq<Seq<char>>, b: Seq<Seq<char>>)
    requires
        compare_parts(a, b) == Ok::<bool, VersionError>(true),
        a.len() == b.len(),
    ensures
        compare_parts(b, a) == Ok::<bool, VersionError>(false),
    decreases a.len(),
{
    if a.len() > 0 {
        if parse_u32(a[0]) == parse_u32(b[0]) {
            lemma_compare_parts_antisymmetric(a.drop_first(), b.drop_first());
        }
    }
}

/// Every version is not newer than itself, when its parts are numbers.
pub proof fn lemma_compare_parts_irreflexive(a: Seq<Seq<char>>)
    requires
        forall|i: int| 0 <= i < a.len() ==> #[trigger] parse_u32(a[i]) is Ok,
    ensures
        compare_parts(a, a) == Ok::<bool, VersionError>(false),
    decreases a.len(),
{
    if a.len() > 0 {
        assert(parse_u32(a[0]) is Ok);
        assert forall|i: int| 0 <= i < a.drop_first().len() implies #[trigger] parse_u32(a.drop_first()[i]) is Ok by {
            assert(a.drop_first()[i] == a[i + 1]);
        }
        lemma_compare_parts_irreflexive(a.drop_first());
    }
}

/// A version is never newer than itself; if one version is newer than another,
/// the other is not newer than it.
pub proof fn lemma_newer_version_order(a: Seq<char>, b: Seq<char>)
    ensures
        (forall|i: int| 0 <= i < split_on(a, '.').len() ==> #[trigger] parse_u32(split_on(a, '.')[i]) is Ok)
            ==> newer_version(a, a) == Ok::<bool, VersionError>(false),
        newer_version(a, b) == Ok::<bool, VersionError>(true) ==> newer_version(b, a) == Ok::<bool, VersionError>(false),
{
    if forall|i: int| 0 <= i < split_on(a, '.').len() ==> #[trigger] parse_u32(split_on(a, '.')[i]) is Ok {
        lemma_compare_parts_irreflexive(split_on(a, '.'));
    }
    if newer_version(a, b) == Ok::<bool, VersionError>(true) {
        lemma_compare_parts_antisymmetric(split_on(a, '.'), split_on(b, '.'));
    }
}

/// The number a version part stands for (zero where it is not a number).
pub open spec fn part_number(p: Seq<char>) -> int {
    match parse_u32(p) {
        Ok(v) => v as int,
        Err(_) => 0,
    }
}

/// Whether the numbers of the parts `new` are lexicographically greater than
/// those of `cur`: at some position the new number is greater, and at every
/// position before it the two are equal.
pub open spec fn lexicographically_greater(cur: Seq<Seq<char>>, new: Seq<Seq<char>>) -> bool {
    exists|k: int|
        0 <= k < cur.len() && k < new.len() && (forall|j: int|
            0 <= j < k ==> part_number(#[trigger] cur[j]) == part_number(new[j])) && part_number(new[k])
            > part_number(#[trigger] cur[k])
}

proof fn lemma_compare_parts_lexicographic(cur: Seq<Seq<char>>, new: Seq<Seq<char>>)
    requires
        cur.len() == new.len(),
        forall|i: int| 0 <= i < cur.len() ==> #[trigger] parse_u32(cur[i]) is Ok,
        forall|i: int| 0 <= i < new.len() ==> #[trigger] parse_u32(new[i]) is Ok,
    ensures
        compare_parts(cur, new) == Ok::<bool, VersionError>(lexicographically_greater(cur, new)),
    decreases cur.len(),
{
    if cur.len() == 0 {
        assert(!lexicographically_greater(cur, new));
    } else {
        assert(parse_u32(cur[0]) is Ok);
        assert(parse_u32(new[0]) is Ok);
        let c = part_number(cur[0]);
        let n = part_number(new[0]);
        if n > c {
            assert(forall|j: int| 0 <= j < 0 ==> part_number(#[trigger] cur[j]) == part_number(new[j]));
            assert(lexicographically_greater(cur, new));
        } else if n < c {
            if lexicographically_greater(cur, new) {
                let k = choose|k: int|
                    0 <= k < cur.len() && k < new.len() && (forall|j: int|
                        0 <= j < k ==> part_number(#[trigger] cur[j]) == part_number(new[j])) && part_number(
                        new[k],
                    ) > part_number(#[trigger] cur[k]);
                if k > 0 {
                    assert(part_number(cur[0]) == part_number(new[0]));
                }
            }
            assert(!lexicographically_greater(cur, new));
        } else {
            let cr = cur.drop_first();
            let nr = new.drop_first();
            assert forall|i: int| 0 <= i < cr.len() implies #[trigger] parse_u32(cr[i]) is Ok by {
                assert(cr[i] == cur[i + 1]);
            }
            assert forall|i: int| 0 <= i < nr.len() implies #[trigger] parse_u32(nr[i]) is Ok by {
                assert(nr[i] == new[i + 1]);
            }
            lemma_compare_parts_lexicographic(cr, nr);
            if lexicographically_greater(cur, new) {
                let k = choose|k: int|
                    0 <= k < cur.len() && k < new.len() && (forall|j: int|
                        0 <= j < k ==> part_number(#[trigger] cur[j]) == part_number(new[j])) && part_number(
                        new[k],
                    ) > part_number(#[trigger] cur[k]);
                assert(k > 0);
                assert(cr[k - 1] == cur[k] && nr[k - 1] == new[k]);
                assert forall|j: int| 0 <= j < k - 1 implies part_number(#[trigger] cr[j]) == part_number(nr[j]) by {
                    assert(cr[j] == cur[j + 1] && nr[j] == new[j + 1]);
                }
                assert(lexicographically_greater(cr, nr));
            }
            if lexicographically_greater(cr, nr) {
                let k = choose|k: int|
                    0 <= k < cr.len() && k < nr.len() && (forall|j: int|
                        0 <= j < k ==> part_number(#[trigger] cr[j]) == part_number(nr[j])) && part_number(nr[k])
                        > part_number(#[trigger] cr[k]);
                assert(cur[k + 1] == cr[k] && new[k + 1] == nr[k]);
                assert forall|j: int| 0 <= j < k + 1 implies part_number(#[trigger] cur[j]) == part_number(new[j]) by {
                    if j > 0 {
                        assert(cr[j - 1] == cur[j] && nr[j - 1] == new[j]);
                    }
                }
                assert(lexicographically_greater(cur, new));
            }
        }
    }
}

/// For versions cut at dots into the same number of numeric parts, `new` is
/// newer exactly when its part numbers are lexicographically greater than those
/// of `current`, over all the parts, the last one included.  In particular, two
/// versions that agree up to a greater last part of `new` give `Ok(true)`.
pub proof fn lemma_newer_version_is_lexicographic(current: Seq<char>, new: Seq<char>)
    requires
        split_on(current, '.').len() == split_on(new, '.').len(),
        forall|i: int|
            0 <= i < split_on(current, '.').len() ==> #[trigger] parse_u32(split_on(current, '.')[i]) is Ok,
        forall|i: int| 0 <= i < split_on(new, '.').len() ==> #[trigger] parse_u32(split_on(new, '.')[i]) is Ok,
    ensures
        newer_version(current, new) == Ok::<bool, VersionError>(
            lexicographically_greater(split_on(current, '.'), split_on(new, '.')),
        ),
        ({
            let c = split_on(current, '.');
            let n = split_on(new, '.');
            (forall|j: int| 0 <= j < c.len() - 1 ==> part_number(#[trigger] c[j]) == part_number(n[j]))
                && part_number(n.last()) > part_number(c.last()) ==> newer_version(current, new) == Ok::<
                bool,
                VersionError,
            >(true)
        }),
{
    let c = split_on(current, '.');
    let n = split_on(new, '.');
    lemma_split_nonempty(current, '.');
    lemma_compare_parts_lexicographic(c, n);
    if (forall|j: int| 0 <= j < c.len() - 1 ==> part_number(#[trigger] c[j]) == part_number(n[j]))
        && part_number(n.last()) > part_number(c.last()) {
        let k = c.len() - 1;
        assert(c[k] == c.last() && n[k] == n.last());
        assert(lexicographically_greater(c, n));
    }
}

/// The text of an error of the update process.
pub fn version_error_message(e: VersionError) -> (s: String)
    ensures
        s@ == version_error_text(e),
{
    match e {
        VersionError::FormatMismatch => String::from_str("Version format mismatch"),
        VersionError::BadPart(ParseFault::Empty) => String::from_str("cannot parse integer from empty string"),
        VersionError::BadPart(ParseFault::InvalidDigit) => String::from_str("invalid digit found in string"),
        VersionError::BadPart(ParseFault::Overflow) => String::from_str("number too large to fit in target type"),
    }
}


/// The hexadecimal digit of a value below 16, in lower case.
pub open spec fn hex_digit(n: nat) -> char {
    if n < 10 {
        ('0' as nat + n) as char
    } else {
        ('a' as nat + n - 10) as char
    }
}

/// Lower-case hexadecimal text of bytes, two digits a byte, high digit first.
pub open spec fn hex_lower(bytes: Seq<u8>) -> Seq<char>
    decreases bytes.len(),
{
    if bytes.len() == 0 {
        Seq::empty()
    } else {
        hex_lower(bytes.drop_last()) + seq![hex_digit(bytes.last() as nat / 16), hex_digit(bytes.last() as nat % 16)]
    }
}

/// The SHA-256 digest of some bytes.
pub uninterp spec fn sha256(data: Seq<u8>) -> Seq<u8>;

/// The SHA-512 digest of some bytes.
pub uninterp spec fn sha512(data: Seq<u8>) -> Seq<u8>;

/// `ring::digest::digest` with `SHA256`: the 32-byte digest.
#[verifier::external_body]
pub(crate) fn sha256_digest(data: &[u8]) -> (d: Vec<u8>)
    ensures
        d@ == sha256(data@),
        d@.len() == 32,
{
    ring::digest::digest(&ring::digest::SHA256, data).as_ref().to_vec()
}

/// `ring::digest::digest` with `SHA512`: the 64-byte digest.
#[verifier::external_body]
fn sha512_digest(data: &[u8]) -> (d: Vec<u8>)
    ensures
        d@ == sha512(data@),
        d@.len() == 64,
{
    ring::digest::digest(&ring::digest::SHA512, data).as_ref().to_vec()
}

/// The lower-case hexadecimal digit of a number below 16.
fn hex_digit_char(n: u8) -> (c: char)
    requires
        n < 16,
    ensures
        c == hex_digit(n as nat),
{
    match n {
        0 => '0',
        1 => '1',
        2 => '2',
        3 => '3',
        4 => '4',
        5 => '5',
        6 => '6',
        7 => '7',
        8 => '8',
        9 => '9',
        10 => 'a',
        11 => 'b',
        12 => 'c',
        13 => 'd',
        14 => 'e',
        _ => 'f',
    }
}

/// Lower-case hexadecimal text of bytes, two digits a byte, as `hex::encode`
/// writes it.
fn hex_encode(bytes: &[u8]) -> (s: String)
    ensures
        s@ == hex_lower(bytes@),
{
    let mut cs: Vec<char> = Vec::new();
    let mut i: usize = 0;
    while i < bytes.len()
        invariant
            i <= bytes@.len(),
            cs@ == hex_lower(bytes@.take(i as int)),
        decreases bytes@.len() - i,
    {
        let b = bytes[i];
        cs.push(hex_digit_char(b / 16));
        cs.push(hex_digit_char(b % 16));
        assert(bytes@.take(i + 1).drop_last() =~= bytes@.take(i as int));
        assert(cs@ =~= hex_lower(bytes@.take(i + 1)));
        i += 1;
    }
    assert(bytes@.take(bytes@.len() as int) =~= bytes@);
    crate::text::string_from_chars(&cs)
}

/// The checksum of some content under a named algorithm (SHA256 or SHA512), as
/// lower-case hexadecimal; none for another algorithm.
pub open spec fn checksum_of(algorithm: Seq<char>, content: Seq<u8>) -> Option<Seq<char>> {
    if algorithm == "SHA256"@ {
        Some(hex_lower(sha256(content)))
    } else if algorithm == "SHA512"@ {
        Some(hex_lower(sha512(content)))
    } else {
        None
    }
}

/// The error of checking content against a published checksum, if any: an
/// unknown algorithm, or the expected and the actual checksum.
pub open spec fn checksum_failure(algorithm: Seq<char>, expected: Seq<char>, content: Seq<u8>) -> Option<Seq<char>> {
    match checksum_of(algorithm, content) {
        None => Some("Unsupported checksum algorithm: "@ + algorithm),
        Some(actual) => if actual == expected {
            None
        } else {
            Some("Checksum verification failed. Expected: "@ + expected + ", Actual: "@ + actual)
        },
    }
}

/// Checks downloaded content against the published checksum.
pub fn verify_checksum(content: &[u8], info: &VersionInfo) -> (r: Result<(), String>)
    ensures
        match checksum_failure(info.checksum_algorithm@, info.checksum@, content@) {
            None => r is Ok,
            Some(m) => r matches Err(e) && e@ == m,
        },
{
    let actual = if info.checksum_algorithm == String::from_str("SHA256") {
        let d = sha256_digest(content);
        hex_encode(d.as_slice())
    } else if info.checksum_algorithm == String::from_str("SHA512") {
        let d = sha512_digest(content);
        hex_encode(d.as_slice())
    } else {
        return Err(concat2("Unsupported checksum algorithm: ", info.checksum_algorithm.as_str()));
    };
    if actual != info.checksum {
        let mut m = String::from_str("Checksum verification failed. Expected: ");
        m.append(info.checksum.as_str());
        m.append(", Actual: ");
        m.append(actual.as_str());
        return Err(m);
    }
    Ok(())
}

/// Whether two version records are the same, field by field.
pub open spec fn same_info(a: VersionInfo, b: VersionInfo) -> bool {
    &&& a.version == b.version
    &&& a.release_date == b.release_date
    &&& a.changelog@ == b.changelog@
    &&& a.minimum_version == b.minimum_version
    &&& a.download_url == b.download_url
    &&& a.checksum == b.checksum
    &&& a.checksum_algorithm == b.checksum_algorithm
    &&& a.size_bytes == b.size_bytes
    &&& a.mandatory == b.mandatory
}

impl VersionInfo {
    /// A copy of this record.
    pub fn duplicate(&self) -> (r: VersionInfo)
        ensures
            same_info(r, *self),
    {
        VersionInfo {
            version: self.version.clone(),
            release_date: self.release_date.clone(),
            changelog: crate::error::clone_strings(&self.changelog),
            minimum_version: match &self.minimum_version {
                Some(v) => Some(v.clone()),
                None => None,
            },
            download_url: self.download_url.clone(),
            checksum: self.checksum.clone(),
            checksum_algorithm: self.checksum_algorithm.clone(),
            size_bytes: self.size_bytes,
            mandatory: self.mandatory,
        }
    }
}

/// Whether two statuses are the same.
pub open spec fn same_status(a: UpdateStatus, b: UpdateStatus) -> bool {
    match (a, b) {
        (UpdateStatus::Available(x), UpdateStatus::Available(y)) => same_info(x, y),
        (UpdateStatus::Available(_), _) => false,
        (_, UpdateStatus::Available(_)) => false,
        _ => a == b,
    }
}

impl UpdateStatus {
    /// A copy of this status.
    pub fn duplicate(&self) -> (r: UpdateStatus)
        ensures
            same_status(r, *self),
    {
        match self {
            UpdateStatus::UpToDate => UpdateStatus::UpToDate,
            UpdateStatus::Available(v) => UpdateStatus::Available(v.duplicate()),
            UpdateStatus::Downloading { version, downloaded_bytes, total_bytes } => UpdateStatus::Downloading {
                version: version.clone(),
                downloaded_bytes: *downloaded_bytes,
                total_bytes: *total_bytes,
            },
            UpdateStatus::Downloaded(v) => UpdateStatus::Downloaded(v.clone()),
            UpdateStatus::Installing(v) => UpdateStatus::Installing(v.clone()),
            UpdateStatus::Installed(v) => UpdateStatus::Installed(v.clone()),
            UpdateStatus::Failed { version, error, can_retry } => UpdateStatus::Failed {
                version: version.clone(),
                error: error.clone(),
                can_retry: *can_retry,
            },
            UpdateStatus::RollingBack(v) => UpdateStatus::RollingBack(v.clone()),
            UpdateStatus::RolledBack(v) => UpdateStatus::RolledBack(v.clone()),
        }
    }
}

/// Whether `s` is the status of a download of `version` at `downloaded` of `total` bytes.
pub open spec fn is_downloading(s: UpdateStatus, version: Seq<char>, downloaded: u64, total: u64) -> bool {
    s matches UpdateStatus::Downloading { version: v, downloaded_bytes, total_bytes } && v@ == version
        && downloaded_bytes == downloaded && total_bytes == total
}

/// The update process of this installation.
pub struct UpdateManager {
    config: UpdateConfig,
    status: UpdateStatus,
}

impl UpdateManager {
    pub closed spec fn configuration(&self) -> UpdateConfig {
        self.config
    }

    pub closed spec fn status(&self) -> UpdateStatus {
        self.status
    }

    /// A manager that knows of no update yet.
    pub fn new(config: UpdateConfig) -> (m: UpdateManager)
        ensures
            m.configuration() == config,
            m.status() == UpdateStatus::UpToDate,
    {
        UpdateManager { config, status: UpdateStatus::UpToDate }
    }

    /// The address to ask for the latest version.
    pub fn latest_version_url(&self) -> (s: String)
        ensures
            s@ == self.configuration().update_server_url@ + "/api/v1/updates/latest"@,
    {
        concat2(self.config.update_server_url.as_str(), "/api/v1/updates/latest")
    }

    /// The error of an unsuccessful answer of the update server.
    pub fn server_status_error(status_text: &str) -> (s: String)
        ensures
            s@ == "Update server returned status: "@ + status_text@,
    {
        concat2("Update server returned status: ", status_text)
    }

    /// Takes the latest published version: when it is newer than the running one it
    /// becomes available (and is the answer); otherwise the answer is "up to date"
    /// and nothing changes.  Versions that cannot be compared give the comparison's
    /// error.
    pub fn check_for_updates(&mut self, latest: VersionInfo) -> (r: Result<UpdateStatus, String>)
        ensures
            final(self).configuration() == old(self).configuration(),
            match newer_version(old(self).configuration().current_version@, latest.version@) {
                Err(e) => r matches Err(m) && m@ == version_error_text(e) && final(self).status() == old(self).status(),
                Ok(true) => (r matches Ok(UpdateStatus::Available(v)) && same_info(v, latest))
                    && (final(self).status() matches UpdateStatus::Available(w) && same_info(w, latest)),
                Ok(false) => r == Ok::<UpdateStatus, String>(UpdateStatus::UpToDate) && final(self).status() == old(self).status(),
            },
    {
        match is_newer_version(self.config.current_version.as_str(), latest.version.as_str()) {
            Err(e) => Err(version_error_message(e)),
            Ok(true) => {
                self.status = UpdateStatus::Available(latest.duplicate());
                Ok(UpdateStatus::Available(latest))
            },
            Ok(false) => Ok(UpdateStatus::UpToDate),
        }
    }

    /// The name of the downloaded file of a version.
    pub fn download_file_name(version: &str) -> (s: String)
        ensures
            s@ == "update-"@ + version@ + ".bin"@,
    {
        let mut s = String::from_str("update-");
        s.append(version);
        s.append(".bin");
        s
    }

    /// The name of the backup of a version.
    pub fn backup_file_name(version: &str) -> (s: String)
        ensures
            s@ == "backup-"@ + version@ + ".bin"@,
    {
        let mut s = String::from_str("backup-");
        s.append(version);
        s.append(".bin");
        s
    }

    /// A download of `info` begins: nothing received yet.
    pub fn start_download(&mut self, info: &VersionInfo)
        ensures
            final(self).configuration() == old(self).configuration(),
            is_downloading(final(self).status(), info.version@, 0, info.size_bytes),
    {
        self.status = UpdateStatus::Downloading {
            version: info.version.clone(),
            downloaded_bytes: 0,
            total_bytes: info.size_bytes,
        };
    }

    /// The server refused the download: the update fails, and may be retried.
    pub fn download_rejected(&mut self, info: &VersionInfo, status_text: &str) -> (m: String)
        ensures
            final(self).configuration() == old(self).configuration(),
            m@ == "Download failed with status: "@ + status_text@,
            final(self).status() matches UpdateStatus::Failed { version, error, can_retry } && version@
                == info.version@ && error@ == m@ && can_retry,
    {
        let m = concat2("Download failed with status: ", status_text);
        self.status = UpdateStatus::Failed { version: info.version.clone(), error: m.clone(), can_retry: true };
        m
    }

    /// A chunk of `chunk_len` bytes of `info` arrived after `downloaded` bytes: the
    /// new count is returned, and shown when the download under way is this one.
    pub fn record_chunk(&mut self, info: &VersionInfo, downloaded: u64, chunk_len: u64) -> (n: u64)
        requires
            downloaded + chunk_len <= u64::MAX,
        ensures
            final(self).configuration() == old(self).configuration(),
            n == downloaded + chunk_len,
            (old(self).status() matches UpdateStatus::Downloading { version, .. } && version@ == info.version@)
                ==> is_downloading(final(self).status(), info.version@, n, info.size_bytes),
            !(old(self).status() matches UpdateStatus::Downloading { version, .. } && version@ == info.version@)
                ==> final(self).status() == old(self).status(),
    {
        let n = downloaded + chunk_len;
        let same = match &self.status {
            UpdateStatus::Downloading { version, .. } => *version == info.version,
            _ => false,
        };
        if same {
            self.status = UpdateStatus::Downloading {
                version: info.version.clone(),
                downloaded_bytes: n,
                total_bytes: info.size_bytes,
            };
        }
        n
    }

    /// The download of `info` ended with `content`: when the checksum matches, the
    /// update is downloaded; otherwise the checksum's error and no change.
    pub fn finish_download(&mut self, info: &VersionInfo, content: &[u8]) -> (r: Result<(), String>)
        ensures
            final(self).configuration() == old(self).configuration(),
            (r is Ok) == (checksum_of(info.checksum_algorithm@, content@) == Some(info.checksum@)),
            r is Ok ==> (final(self).status() matches UpdateStatus::Downloaded(v) && v@ == info.version@),
            r is Err ==> final(self).status() == old(self).status(),
            r matches Err(e) ==> Some(e@) == checksum_failure(info.checksum_algorithm@, info.checksum@, content@),
    {
        match verify_checksum(content, info) {
            Ok(()) => {
                self.status = UpdateStatus::Downloaded(info.version.clone());
                Ok(())
            },
            Err(m) => Err(m),
        }
    }

    /// The error of an install whose file is missing.
    pub fn update_file_missing(path_text: &str) -> (s: String)
        ensures
            s@ == "Update file not found: "@ + path_text@,
    {
        concat2("Update file not found: ", path_text)
    }

    pub fn begin_install(&mut self, version: &str)
        ensures
            final(self).configuration() == old(self).configuration(),
            final(self).status() matches UpdateStatus::Installing(v) && v@ == version@,
    {
        self.status = UpdateStatus::Installing(String::from_str(version));
    }

    pub fn finish_install(&mut self, version: &str)
        ensures
            final(self).configuration() == old(self).configuration(),
            final(self).status() matches UpdateStatus::Installed(v) && v@ == version@,
    {
        self.status = UpdateStatus::Installed(String::from_str(version));
    }

    pub fn begin_rollback(&mut self, target_version: &str)
        ensures
            final(self).configuration() == old(self).configuration(),
            final(self).status() matches UpdateStatus::RollingBack(v) && v@ == target_version@,
    {
        self.status = UpdateStatus::RollingBack(String::from_str(target_version));
    }

    /// The backup to roll back to is missing: the rollback fails for good.
    pub fn rollback_backup_missing(&mut self, target_version: &str, path_text: &str) -> (m: String)
        ensures
            final(self).configuration() == old(self).configuration(),
            m@ == "Backup file not found: "@ + path_text@,
            final(self).status() matches UpdateStatus::Failed { version, error, can_retry } && version@
                == target_version@ && error@ == m@ && !can_retry,
    {
        let m = concat2("Backup file not found: ", path_text);
        self.status = UpdateStatus::Failed {
            version: String::from_str(target_version),
            error: m.clone(),
            can_retry: false,
        };
        m
    }

    pub fn finish_rollback(&mut self, target_version: &str)
        ensures
            final(self).configuration() == old(self).configuration(),
            final(self).status() matches UpdateStatus::RolledBack(v) && v@ == target_version@,
    {
        self.status = UpdateStatus::RolledBack(String::from_str(target_version));
    }

    pub fn get_update_status(&self) -> (s: UpdateStatus)
        ensures
            same_status(s, self.status()),
    {
        self.status.duplicate()
    }

    /// No history is kept.
    pub fn get_update_history(&self) -> (h: Vec<UpdateRecord>)
        ensures
            h@.len() == 0,
    {
        Vec::new()
    }
}

/// What the periodic check does with its answer: download a mandatory new version.
pub fn auto_check_downloads(answer: &Result<UpdateStatus, String>) -> (b: bool)
    ensures
        b == (answer matches Ok(UpdateStatus::Available(v)) && v.mandatory),
{
    match answer {
        Ok(UpdateStatus::Available(v)) => v.mandatory,
        _ => false,
    }
}


fn text_field(key: &str, value: &str) -> (f: (String, JsonField))
    ensures
        f.0@ == key@,
        f.1.view() == JsonVal::Text(value@),
{
    (String::from_str(key), JsonField::Text(String::from_str(value)))
}

fn flag_field(key: &str, value: bool) -> (f: (String, JsonField))
    ensures
        f.0@ == key@,
        f.1.view() == JsonVal::Flag(value),
{
    (String::from_str(key), JsonField::Flag(value))
}

fn count_field(key: &str, value: u64) -> (f: (String, JsonField))
    ensures
        f.0@ == key@,
        f.1.view() == JsonVal::Count(value),
{
    (String::from_str(key), JsonField::Count(value))
}

fn texts_field(key: &str, value: &Vec<String>) -> (f: (String, JsonField))
    ensures
        f.0@ == key@,
        f.1.view() == JsonVal::Texts(value@.map_values(|s: String| s@)),
{
    let v = crate::error::clone_strings(value);
    assert(v@.map_values(|s: String| s@) =~= value@.map_values(|s: String| s@));
    (String::from_str(key), JsonField::Texts(v))
}

/// The body of the update-status endpoint, field by field.  A download in
/// progress also reports its progress in percent, a float the caller adds.
pub open spec fn status_report(s: UpdateStatus) -> Seq<(Seq<char>, JsonVal)> {
    match s {
        UpdateStatus::UpToDate => seq![
            ("status"@, JsonVal::Text("up_to_date"@)),
            ("message"@, JsonVal::Text("No updates available"@)),
        ],
        UpdateStatus::Available(v) => seq![
            ("status"@, JsonVal::Text("available"@)),
            ("version"@, JsonVal::Text(v.version@)),
            ("changelog"@, JsonVal::Texts(v.changelog@.map_values(|c: String| c@))),
            ("mandatory"@, JsonVal::Flag(v.mandatory)),
        ],
        UpdateStatus::Downloading { version, downloaded_bytes, total_bytes } => seq![
            ("status"@, JsonVal::Text("downloading"@)),
            ("version"@, JsonVal::Text(version@)),
            ("downloaded_bytes"@, JsonVal::Count(downloaded_bytes)),
            ("total_bytes"@, JsonVal::Count(total_bytes)),
        ],
        UpdateStatus::Downloaded(v) => seq![
            ("status"@, JsonVal::Text("downloaded"@)),
            ("version"@, JsonVal::Text(v@)),
            ("message"@, JsonVal::Text("Update downloaded, ready to install"@)),
        ],
        UpdateStatus::Installing(v) => seq![
            ("status"@, JsonVal::Text("installing"@)),
            ("version"@, JsonVal::Text(v@)),
        ],
        UpdateStatus::Installed(v) => seq![
            ("status"@, JsonVal::Text("installed"@)),
            ("version"@, JsonVal::Text(v@)),
            ("message"@, JsonVal::Text("Update installed successfully"@)),
        ],
        UpdateStatus::Failed { version, error, can_retry } => seq![
            ("status"@, JsonVal::Text("failed"@)),
            ("version"@, JsonVal::Text(version@)),
            ("error"@, JsonVal::Text(error@)),
            ("can_retry"@, JsonVal::Flag(can_retry)),
        ],
        UpdateStatus::RollingBack(v) => seq![
            ("status"@, JsonVal::Text("rolling_back"@)),
            ("version"@, JsonVal::Text(v@)),
        ],
        UpdateStatus::RolledBack(v) => seq![
            ("status"@, JsonVal::Text("rolled_back"@)),
            ("version"@, JsonVal::Text(v@)),
            ("message"@, JsonVal::Text("Rollback completed successfully"@)),
        ],
    }
}

/// The fields of the update-status endpoint's body.
pub fn update_status_report(status: &UpdateStatus) -> (r: Vec<(String, JsonField)>)
    ensures
        report_view(r@) == status_report(*status),
{
    let mut r: Vec<(String, JsonField)> = Vec::new();
    match status {
        UpdateStatus::UpToDate => {
            r.push(text_field("status", "up_to_date"));
            r.push(text_field("message", "No updates available"));
        },
        UpdateStatus::Available(v) => {
            r.push(text_field("status", "available"));
            r.push(text_field("version", v.version.as_str()));
            r.push(texts_field("changelog", &v.changelog));
            r.push(flag_field("mandatory", v.mandatory));
        },
        UpdateStatus::Downloading { version, downloaded_bytes, total_bytes } => {
            r.push(text_field("status", "downloading"));
            r.push(text_field("version", version.as_str()));
            r.push(count_field("downloaded_bytes", *downloaded_bytes));
            r.push(count_field("total_bytes", *total_bytes));
        },
        UpdateStatus::Downloaded(v) => {
            r.push(text_field("status", "downloaded"));
            r.push(text_field("version", v.as_str()));
            r.push(text_field("message", "Update downloaded, ready to install"));
        },
        UpdateStatus::Installing(v) => {
            r.push(text_field("status", "installing"));
            r.push(text_field("version", v.as_str()));
        },
        UpdateStatus::Installed(v) => {
            r.push(text_field("status", "installed"));
            r.push(text_field("version", v.as_str()));
            r.push(text_field("message", "Update installed successfully"));
        },
        UpdateStatus::Failed { version, error, can_retry } => {
            r.push(text_field("status", "failed"));
            r.push(text_field("version", version.as_str()));
            r.push(text_field("error", error.as_str()));
            r.push(flag_field("can_retry", *can_retry));
        },
        UpdateStatus::RollingBack(v) => {
            r.push(text_field("status", "rolling_back"));
            r.push(text_field("version", v.as_str()));
        },
        UpdateStatus::RolledBack(v) => {
            r.push(text_field("status", "rolled_back"));
            r.push(text_field("version", v.as_str()));
            r.push(text_field("message", "Rollback completed successfully"));
        },
    }
    assert(report_view(r@) =~= status_report(*status));
    r
}

/// The body of the update-check endpoint, from the check's answer.
pub open spec fn check_report(s: UpdateStatus) -> Seq<(Seq<char>, JsonVal)> {
    match s {
        UpdateStatus::Available(v) => seq![
            ("available"@, JsonVal::Flag(true)),
            ("version"@, JsonVal::Text(v.version@)),
            ("changelog"@, JsonVal::Texts(v.changelog@.map_values(|c: String| c@))),
            ("mandatory"@, JsonVal::Flag(v.mandatory)),
            ("size_bytes"@, JsonVal::Count(v.size_bytes)),
        ],
        UpdateStatus::UpToDate => seq![
            ("available"@, JsonVal::Flag(false)),
            ("message"@, JsonVal::Text("Already up to date"@)),
        ],
        _ => seq![
            ("available"@, JsonVal::Flag(false)),
            ("message"@, JsonVal::Text("Update check in progress"@)),
        ],
    }
}

/// The fields of the update-check endpoint's body.
pub fn check_updates_report(answer: &UpdateStatus) -> (r: Vec<(String, JsonField)>)
    ensures
        report_view(r@) == check_report(*answer),
{
    let mut r: Vec<(String, JsonField)> = Vec::new();
    match answer {
        UpdateStatus::Available(v) => {
            r.push(flag_field("available", true));
            r.push(text_field("version", v.version.as_str()));
            r.push(texts_field("changelog", &v.changelog));
            r.push(flag_field("mandatory", v.mandatory));
            r.push(count_field("size_bytes", v.size_bytes));
        },
        UpdateStatus::UpToDate => {
            r.push(flag_field("available", false));
            r.push(text_field("message", "Already up to date"));
        },
        _ => {
            r.push(flag_field("available", false));
            r.push(text_field("message", "Update check in progress"));
        },
    }
    assert(report_view(r@) =~= check_report(*answer));
    r
}

/// The version a download request would fetch: the available one.
pub fn pending_download(status: &UpdateStatus) -> (r: Result<VersionInfo, String>)
    ensures
        match *status {
            UpdateStatus::Available(v) => r matches Ok(w) && same_info(w, v),
            _ => r matches Err(m) && m@ == "No update available for download"@,
        },
{
    match status {
        UpdateStatus::Available(v) => Ok(v.duplicate()),
        _ => Err(String::from_str("No update available for download")),
    }
}

/// The version an install request would install: the downloaded one.
pub fn pending_install(status: &UpdateStatus) -> (r: Result<String, String>)
    ensures
        match *status {
            UpdateStatus::Downloaded(v) => r == Ok::<String, String>(v),
            _ => r matches Err(m) && m@ == "No downloaded update available for installation"@,
        },
{
    match status {
        UpdateStatus::Downloaded(v) => Ok(v.clone()),
        _ => Err(String::from_str("No downloaded update available for installation")),
    }
}

/// The version a rollback request names in its `version` parameter.
pub fn rollback_target(version_param: Option<String>) -> (r: Result<String, String>)
    ensures
        match version_param {
            Some(v) => r == Ok::<String, String>(v),
            None => r matches Err(m) && m@ == "Target version parameter is required"@,
        },
{
    match version_param {
        Some(v) => Ok(v),
        None => Err(String::from_str("Target version parameter is required")),
    }
}

/// The body answering a started download, install or rollback.
pub fn started_report(message: &str, key: &str, version: &str) -> (r: Vec<(String, JsonField)>)
    ensures
        report_view(r@) == seq![("message"@, JsonVal::Text(message@)), (key@, JsonVal::Text(version@))],
{
    let mut r: Vec<(String, JsonField)> = Vec::new();
    r.push(text_field("message", message));
    r.push(text_field(key, version));
    assert(report_view(r@) =~= seq![("message"@, JsonVal::Text(message@)), (key@, JsonVal::Text(version@))]);
    r
}

} // verus!
