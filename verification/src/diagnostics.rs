//! Private-test diagnostics: where a captured run lives under the app root,
//! how its identity and timestamps are written, how secrets are kept out of
//! what is recorded, and what the upload boundary reports.

use vstd::prelude::*;
use crate::text::{owned, concat, concat3, concat5, str_eq, decimal, decimal_string, is_alnum, char_is_alnum,
    hex_char, hex_fixed, hex_string, hex_digits, hex_plain, string_views, joined, join_strings};
use crate::paths::{join, join_path, parent, parent_path, file_name, file_name_of};
use crate::manifest::APP_FILE_NAME;
use crate::text::{ascii_lowercase, to_ascii_lowercase, has_infix, occurs_at, occurs_at_exec, contains, index_of, find_char, is_space, char_is_space, slice};

verus! {

/// Name of the pointer file that records the latest run.
pub const LATEST_FILE: &'static str = "latest.toml";

/// Seconds in a day.
pub const SECONDS_PER_DAY: u64 = 86400;

/// A captured run on disk.
#[derive(Debug, Clone)]
pub struct LocalRun {
    /// Run identifier.
    pub run_id: String,
    /// Directory holding the run.
    pub run_dir: String,
    /// The run's metadata file.
    pub metadata_path: String,
    /// The run's log file.
    pub log_path: String,
}

impl LocalRun {
    /// Run identifier.
    pub fn run_id(&self) -> (r: &str)
        ensures
            r@ == self.run_id@,
    {
        self.run_id.as_str()
    }

    /// Directory holding the run.
    pub fn run_dir(&self) -> (r: &str)
        ensures
            r@ == self.run_dir@,
    {
        self.run_dir.as_str()
    }

    /// The run's metadata file.
    pub fn metadata_path(&self) -> (r: &str)
        ensures
            r@ == self.metadata_path@,
    {
        self.metadata_path.as_str()
    }

    /// The run's log file.
    pub fn log_path(&self) -> (r: &str)
        ensures
            r@ == self.log_path@,
    {
        self.log_path.as_str()
    }
}

/// Where diagnostics live under an app root.
pub open spec fn diagnostics_dir_spec(app_root: Seq<char>) -> Seq<char> {
    join(app_root, ".vapor/diagnostics"@)
}

/// Where diagnostics live under an app root.
pub fn diagnostics_dir(app_root: &str) -> (r: String)
    ensures
        r@ == diagnostics_dir_spec(app_root@),
{
    join_path(app_root, ".vapor/diagnostics")
}

/// Where runs live under an app root.
pub open spec fn run_directory_spec(app_root: Seq<char>) -> Seq<char> {
    join(diagnostics_dir_spec(app_root), "runs"@)
}

/// Where runs live under an app root.
pub fn run_directory(app_root: &str) -> (r: String)
    ensures
        r@ == run_directory_spec(app_root@),
{
    join_path(&diagnostics_dir(app_root), "runs")
}

/// The pointer file to the latest run under an app root.
pub fn latest_file(app_root: &str) -> (r: String)
    ensures
        r@ == join(diagnostics_dir_spec(app_root@), LATEST_FILE@),
{
    join_path(&diagnostics_dir(app_root), LATEST_FILE)
}

/// The diagnostics directory that holds a run directory
/// (`<diagnostics>/runs/<date>/<run>`): its third ancestor.
pub open spec fn diagnostics_root_spec(run_dir: Seq<char>) -> Option<Seq<char>> {
    match parent(run_dir) {
        None => None,
        Some(a) => match parent(a) {
            None => None,
            Some(b) => parent(b),
        },
    }
}

/// The diagnostics directory that holds a run directory, if it has one.
pub fn diagnostics_root_from_run_dir(run_dir: &str) -> (r: Option<String>)
    ensures
        match diagnostics_root_spec(run_dir@) {
            None => r is None,
            Some(p) => r matches Some(s) && s@ == p,
        },
{
    let a = parent_path(run_dir)?;
    let b = parent_path(a.as_str())?;
    parent_path(b.as_str())
}

/// The app root guessed from the running executable when the installation
/// cannot be resolved: the parent of a `bin` directory holding it (directly
/// or one level down), else the parent of its directory.
pub open spec fn fallback_app_root_spec(executable: Seq<char>) -> Option<Seq<char>> {
    match parent(executable) {
        None => None,
        Some(dir) => if file_name(dir) == Some("bin"@) {
            parent(dir)
        } else if (parent(dir) matches Some(up) && file_name(up) == Some("bin"@)) {
            match parent(dir) {
                Some(up) => parent(up),
                None => None,
            }
        } else {
            parent(dir)
        },
    }
}

fn named_bin(p: &str) -> (r: bool)
    ensures
        r == (file_name(p@) == Some("bin"@)),
{
    match file_name_of(p) {
        Some(n) => str_eq(n, "bin"),
        None => false,
    }
}

/// The app root guessed from the running executable.
pub fn fallback_app_root(executable: &str) -> (r: Option<String>)
    ensures
        match fallback_app_root_spec(executable@) {
            None => r is None,
            Some(p) => r matches Some(s) && s@ == p,
        },
{
    let dir = parent_path(executable)?;
    if named_bin(dir.as_str()) {
        return parent_path(dir.as_str());
    }
    match parent_path(dir.as_str()) {
        Some(up) => {
            if named_bin(up.as_str()) {
                parent_path(up.as_str())
            } else {
                Some(up)
            }
        },
        None => None,
    }
}

/// Whether a character is kept in a path component.
pub open spec fn component_char(c: char) -> bool {
    is_alnum(c) || c == '-' || c == '_' || c == '.'
}

/// Runs of `-` collapsed to one.
pub open spec fn collapse_dashes(s: Seq<char>) -> Seq<char>
    decreases s.len(),
{
    if s.len() == 0 {
        s
    } else {
        let r = collapse_dashes(s.drop_last());
        if s.last() == '-' && r.len() > 0 && r.last() == '-' { r } else { r.push(s.last()) }
    }
}

/// Leading `-` removed.
pub open spec fn trim_dash_start(s: Seq<char>) -> Seq<char>
    decreases s.len(),
{
    if s.len() > 0 && s[0] == '-' { trim_dash_start(s.drop_first()) } else { s }
}

/// Trailing `-` removed.
pub open spec fn trim_dash_end(s: Seq<char>) -> Seq<char>
    decreases s.len(),
{
    if s.len() > 0 && s.last() == '-' { trim_dash_end(s.drop_last()) } else { s }
}

/// A value made safe as one path component: characters other than ASCII
/// letters, digits, `-`, `_` and `.` become `-`, runs of `-` become one,
/// leading and trailing `-` go, and nothing left becomes `unknown`.
pub open spec fn sanitize_spec(value: Seq<char>) -> Seq<char> {
    let mapped = value.map_values(|c: char| if component_char(c) { c } else { '-' });
    let t = trim_dash_end(trim_dash_start(collapse_dashes(mapped)));
    if t.len() == 0 { "unknown"@ } else { t }
}

proof fn lemma_trim_dash_start_at(s: Seq<char>, i: int)
    requires
        0 <= i <= s.len(),
        forall|k: int| 0 <= k < i ==> s[k] == '-',
        i == s.len() || s[i] != '-',
    ensures
        trim_dash_start(s) == s.subrange(i, s.len() as int),
    decreases i,
{
    if i == 0 {
        assert(s.subrange(0, s.len() as int) =~= s);
    } else {
        assert(s.drop_first().subrange(i - 1, s.drop_first().len() as int) =~= s.subrange(i, s.len() as int));
        lemma_trim_dash_start_at(s.drop_first(), i - 1);
    }
}

proof fn lemma_trim_dash_end_at(s: Seq<char>, j: int)
    requires
        0 <= j <= s.len(),
        forall|k: int| j <= k < s.len() ==> s[k] == '-',
        j == 0 || s[j - 1] != '-',
    ensures
        trim_dash_end(s) == s.subrange(0, j),
    decreases s.len() - j,
{
    if j == s.len() {
        assert(s.subrange(0, j) =~= s);
    } else {
        assert(s.drop_last().subrange(0, j) =~= s.subrange(0, j));
        lemma_trim_dash_end_at(s.drop_last(), j);
    }
}

/// A value made safe as one path component.
pub fn sanitize_component(value: &str) -> (r: String)
    ensures
        r@ == sanitize_spec(value@),
{
    let ghost mapped = value@.map_values(|c: char| if component_char(c) { c } else { '-' });
    let n = value.unicode_len();
    let mut out = String::new();
    let mut last_dash = false;
    let mut i: usize = 0;
    proof {
        reveal_strlit("-");
    }
    while i < n
        invariant
            n == value@.len(),
            i <= n,
            mapped == value@.map_values(|c: char| if component_char(c) { c } else { '-' }),
            out@ == collapse_dashes(mapped.take(i as int)),
            last_dash == (out@.len() > 0 && out@.last() == '-'),
            "-"@ == seq!['-'],
        decreases n - i,
    {
        let c = value.get_char(i);
        proof {
            assert(mapped.take(i + 1).drop_last() =~= mapped.take(i as int));
            assert(mapped.take(i + 1).last() == mapped[i as int]);
        }
        if char_is_alnum(c) || c == '-' || c == '_' || c == '.' {
            if c == '-' {
                if !last_dash {
                    out.append("-");
                    last_dash = true;
                }
            } else {
                out.append(value.substring_char(i, i + 1));
                last_dash = false;
            }
        } else {
            if !last_dash {
                out.append("-");
                last_dash = true;
            }
        }
        proof {
            assert(out@ =~= collapse_dashes(mapped.take(i + 1)));
        }
        i = i + 1;
    }
    proof {
        assert(mapped.take(n as int) =~= mapped);
    }
    let m = out.unicode_len();
    let mut a: usize = 0;
    while a < m && out.get_char(a) == '-'
        invariant
            m == out@.len(),
            a <= m,
            forall|k: int| 0 <= k < a ==> out@[k] == '-',
        decreases m - a,
    {
        a = a + 1;
    }
    proof {
        lemma_trim_dash_start_at(out@, a as int);
    }
    let mut b: usize = m;
    while b > a && out.get_char(b - 1) == '-'
        invariant
            m == out@.len(),
            a <= b <= m,
            forall|k: int| b <= k < m ==> out@[k] == '-',
        decreases b,
    {
        b = b - 1;
    }
    proof {
        let s = out@.subrange(a as int, m as int);
        assert forall|k: int| (b - a) <= k < s.len() implies s[k] == '-' by {
            assert(s[k] == out@[a + k]);
        }
        if b > a {
            assert(s[b - a - 1] == out@[b - 1]);
        }
        lemma_trim_dash_end_at(s, (b - a) as int);
        assert(s.subrange(0, (b - a) as int) =~= out@.subrange(a as int, b as int));
    }
    if b == a {
        owned("unknown")
    } else {
        owned(out.substring_char(a, b))
    }
}


/// Whether `y` is a Gregorian leap year.
pub open spec fn leap_year(y: int) -> bool {
    y % 4 == 0 && (y % 100 != 0 || y % 400 == 0)
}

/// Days in month `m` (1 to 12) of a year that is a leap year or not.
pub open spec fn days_in_month(leap: bool, m: int) -> int {
    if m == 2 {
        if leap { 29 } else { 28 }
    } else if m == 4 || m == 6 || m == 9 || m == 11 {
        30
    } else {
        31
    }
}

/// Days from 1970-01-01 to the Gregorian date `y-m-d`, counting in
/// 400-year eras of 146097 days whose years start in March.
pub open spec fn days_from_civil(y: int, m: int, d: int) -> int {
    let y2 = if m <= 2 { y - 1 } else { y };
    let era = y2 / 400;
    let yoe = y2 - era * 400;
    let mp = if m > 2 { m - 3 } else { m + 9 };
    let doy = (153 * mp + 2) / 5 + d - 1;
    let doe = yoe * 365 + yoe / 4 - yoe / 100 + doy;
    era * 146097 + doe - 719468
}

/// Year of era (March-based) of a day of era.
pub open spec fn yoe_of(doe: int) -> int {
    (doe - doe / 1460 + doe / 36524 - doe / 146096) / 365
}

/// Day of the March-based year of a day of era.
pub open spec fn doy_of(doe: int) -> int {
    doe - (365 * yoe_of(doe) + yoe_of(doe) / 4 - yoe_of(doe) / 100)
}

/// Month counted from March (0 to 11) of a day of year.
pub open spec fn mp_of(doy: int) -> int {
    (5 * doy + 2) / 153
}

/// Day of month of a day of year.
pub open spec fn day_of(doy: int) -> int {
    doy - (153 * mp_of(doy) + 2) / 5 + 1
}

/// Calendar month of a day of year.
pub open spec fn month_of(doy: int) -> int {
    if mp_of(doy) < 10 { mp_of(doy) + 3 } else { mp_of(doy) - 9 }
}

proof fn lemma_year_of_era(doe: u32)
    requires
        doe <= 146096,
    ensures
        0 <= yoe_of(doe as int) <= 399,
        0 <= doy_of(doe as int) <= 365,
        (doe as int) / 1460 + (doe as int) / 146096 <= doe as int,
{
    assert(0 <= yoe_of(doe as int) <= 399 && 0 <= doy_of(doe as int) <= 365
        && (doe as int) / 1460 + (doe as int) / 146096 <= doe as int) by (bit_vector)
        requires doe <= 146096;
}

proof fn lemma_month_of_year(doy: u32)
    requires
        doy <= 365,
    ensures
        0 <= mp_of(doy as int) <= 11,
        1 <= day_of(doy as int) <= days_in_month(true, month_of(doy as int)),
        month_of(doy as int) == 2 && day_of(doy as int) == 29 ==> doy == 365,
{
    assert(0 <= mp_of(doy as int) <= 11 && 1 <= day_of(doy as int) <= days_in_month(true, month_of(doy as int))
        && (month_of(doy as int) == 2 && day_of(doy as int) == 29 ==> doy == 365)) by (bit_vector)
        requires doy <= 365;
}

proof fn lemma_leap_day(doe: u32)
    requires
        doe <= 146096,
    ensures
        doy_of(doe as int) == 365 ==> leap_year(yoe_of(doe as int) + 1),
{
    assert(doy_of(doe as int) == 365 ==> leap_year(yoe_of(doe as int) + 1)) by (bit_vector)
        requires doe <= 146096;
}

proof fn lemma_leap_shift(k: int, era: int)
    requires
        era >= 0,
    ensures
        leap_year(k + 400 * era) == leap_year(k),
{
    vstd::arithmetic::div_mod::lemma_mod_multiples_vanish(100 * era, k, 4);
    vstd::arithmetic::div_mod::lemma_mod_multiples_vanish(4 * era, k, 100);
    vstd::arithmetic::div_mod::lemma_mod_multiples_vanish(era, k, 400);
    assert(4 * (100 * era) + k == k + 400 * era);
    assert(100 * (4 * era) + k == k + 400 * era);
    assert(400 * era + k == k + 400 * era);
}

/// The Gregorian date of a non-negative day count, with the year widened.
fn civil_from_nonnegative_days(days: u64) -> (r: (i64, u32, u32))
    requires
        days <= 1_600_000_000_000,
    ensures
        1 <= r.1 <= 12,
        1 <= r.2 <= days_in_month(leap_year(r.0 as int), r.1 as int),
        days_from_civil(r.0 as int, r.1 as int, r.2 as int) == days,
        0 <= r.0 <= 4_400_000_000,
{
    let z: u64 = days + 719_468;
    let era: u64 = z / 146_097;
    let doe: u64 = z % 146_097;
    proof {
        vstd::arithmetic::div_mod::lemma_fundamental_div_mod(z as int, 146097);
        lemma_year_of_era(doe as u32);
        lemma_leap_day(doe as u32);
    }
    let yoe: u64 = (doe - doe / 1_460 + doe / 36_524 - doe / 146_096) / 365;
    assert(yoe == yoe_of(doe as int));
    let doy: u64 = doe - (365 * yoe + yoe / 4 - yoe / 100);
    assert(doy == doy_of(doe as int));
    proof {
        lemma_month_of_year(doy as u32);
    }
    let mp: u64 = (5 * doy + 2) / 153;
    let day: u64 = doy - (153 * mp + 2) / 5 + 1;
    let month: u64 = if mp < 10 { mp + 3 } else { mp - 9 };
    assert(mp == mp_of(doy as int) && day == day_of(doy as int) && month == month_of(doy as int));
    assert(era <= 10_952_000);
    assert(era * 400 <= 4_380_800_000) by (nonlinear_arith)
        requires era <= 10_952_000;
    let year: u64 = yoe + era * 400 + if month <= 2 { 1 } else { 0 };
    proof {
        let y2: int = if month <= 2 { year - 1 } else { year as int };
        assert(y2 == 400 * era + yoe);
        vstd::arithmetic::div_mod::lemma_div_multiples_vanish_fancy(era as int, yoe as int, 400);
        assert(y2 / 400 == era);
        assert((if month > 2 { month - 3 } else { month + 9 }) == mp);
        assert(days_from_civil(year as int, month as int, day as int) == days);
        if month == 2 {
            lemma_leap_shift(yoe + 1, era as int);
            assert(year == yoe + 1 + 400 * era);
        }
    }
    (year as i64, month as u32, day as u32)
}

/// Moving a date back by `k` whole 400-year eras moves its day count back by
/// `k` times 146097 days, and keeps whether its year is a leap year.
proof fn lemma_era_shift(y: int, m: int, d: int, k: int)
    requires
        k >= 0,
    ensures
        days_from_civil(y - 400 * k, m, d) == days_from_civil(y, m, d) - 146097 * k,
        leap_year(y - 400 * k) == leap_year(y),
{
    let y2 = if m <= 2 { y - 1 } else { y };
    vstd::arithmetic::div_mod::lemma_fundamental_div_mod(y2, 400);
    let q = y2 / 400;
    let r = y2 % 400;
    assert(y2 - 400 * k == (q - k) * 400 + r) by (nonlinear_arith)
        requires y2 == 400 * q + r;
    vstd::arithmetic::div_mod::lemma_fundamental_div_mod_converse(y2 - 400 * k, 400, q - k, r);
    assert((q - k) * 146097 == q * 146097 - 146097 * k) by (nonlinear_arith);
    assert((q - k) * 400 == q * 400 - 400 * k) by (nonlinear_arith);
    lemma_leap_shift(y - 400 * k, k);
}

/// The Gregorian date `days` days after 1970-01-01 (before it, for a
/// negative count), as year, month (1 to 12) and day (1 to the month's
/// length). Years within about two billion of 1970 are covered, which keeps
/// the year within `i32`.
pub fn civil_from_days(days_since_unix_epoch: i64) -> (r: (i32, u32, u32))
    requires
        -780_000_000_000 <= days_since_unix_epoch <= 780_000_000_000,
    ensures
        1 <= r.1 <= 12,
        1 <= r.2 <= days_in_month(leap_year(r.0 as int), r.1 as int),
        days_from_civil(r.0 as int, r.1 as int, r.2 as int) == days_since_unix_epoch,
{
    // Shift by a whole number of 400-year eras so that the count is
    // non-negative, then shift the year back by as many eras.
    let shifted: u64 = (days_since_unix_epoch + 788_923_800_000) as u64;
    let (y, month, day) = civil_from_nonnegative_days(shifted);
    proof {
        lemma_era_shift(y as int, month as int, day as int, 5_400_000);
    }
    let year: i64 = y - 2_160_000_000;
    proof {
        let yy = year as int;
        assert(days_from_civil(yy, month as int, day as int) == days_since_unix_epoch);
        if yy < -2_147_483_648 || yy > 2_147_483_647 {
            lemma_civil_year_bounds(yy, month as int, day as int, days_since_unix_epoch as int);
        }
    }
    (year as i32, month, day)
}

/// A date whose day count lies within 780 billion days of the epoch has a
/// year within `i32`.
proof fn lemma_civil_year_bounds(y: int, m: int, d: int, days: int)
    requires
        -780_000_000_000 <= days <= 780_000_000_000,
        1 <= m <= 12,
        1 <= d <= 31,
        days_from_civil(y, m, d) == days,
    ensures
        -2_147_483_648 <= y <= 2_147_483_647,
{
    let y2 = if m <= 2 { y - 1 } else { y };
    let era = y2 / 400;
    let yoe = y2 - era * 400;
    let mp = if m > 2 { m - 3 } else { m + 9 };
    vstd::arithmetic::div_mod::lemma_fundamental_div_mod(y2, 400);
    assert(0 <= yoe < 400);
    assert(0 <= (153 * mp + 2) / 5 <= 337);
    assert(yoe / 4 <= 99 && yoe / 100 <= 3);
    let doe = yoe * 365 + yoe / 4 - yoe / 100 + (153 * mp + 2) / 5 + d - 1;
    assert(0 <= doe <= 146096 + 400);
    assert(era * 146097 == days + 719468 - doe);
    if era > 5_340_000 {
        assert(era * 146097 > 5_340_000 * 146097) by (nonlinear_arith) requires era > 5_340_000;
        assert(false);
    }
    if era < -5_340_000 {
        assert(era * 146097 < -5_340_000 * 146097) by (nonlinear_arith) requires era < -5_340_000;
        assert(false);
    }
    assert(-5_340_000 * 400 <= era * 400 <= 5_340_000 * 400) by (nonlinear_arith)
        requires -5_340_000 <= era <= 5_340_000;
}

/// Decimal rendering of `n`, padded with leading zeros to `width` digits.
pub open spec fn zero_padded(n: nat, width: nat) -> Seq<char> {
    let d = decimal(n);
    if d.len() >= width { d } else { Seq::new((width - d.len()) as nat, |i: int| '0') + d }
}

/// Decimal rendering of `n` padded with leading zeros to `width` digits, as
/// `format!("{:0width$}")` does.
pub fn zero_padded_string(n: u64, width: usize) -> (r: String)
    ensures
        r@ == zero_padded(n as nat, width as nat),
{
    let d = decimal_string(n);
    let len = d.unicode_len();
    if len >= width {
        return d;
    }
    let mut r = String::new();
    let mut i: usize = 0;
    proof {
        reveal_strlit("0");
    }
    while i < width - len
        invariant
            len == d@.len(),
            len < width,
            i <= width - len,
            r@ == Seq::new(i as nat, |k: int| '0'),
            "0"@ == seq!['0'],
        decreases width - len - i,
    {
        r.append("0");
        proof {
            assert(r@ =~= Seq::new((i + 1) as nat, |k: int| '0'));
        }
        i = i + 1;
    }
    r.append(d.as_str());
    r
}

/// A year padded with zeros to four characters, a sign counting as one of
/// them, as `format!("{:04}")` renders a signed number.
pub open spec fn year_text(y: int) -> Seq<char> {
    if y < 0 { "-"@ + zero_padded((-y) as nat, 3) } else { zero_padded(y as nat, 4) }
}

/// A calendar date as `YYYY-MM-DD`.
pub open spec fn utc_date_spec(y: int, m: int, d: int) -> Seq<char> {
    year_text(y) + "-"@ + zero_padded(m as nat, 2) + "-"@ + zero_padded(d as nat, 2)
}

/// A calendar date as `YYYY-MM-DD`.
pub fn date_text(year: i32, month: u32, day: u32) -> (r: String)
    ensures
        r@ == utc_date_spec(year as int, month as int, day as int),
{
    let mut r = if year < 0 {
        let magnitude: i64 = -(year as i64);
        let digits = zero_padded_string(magnitude as u64, 3);
        let mut signed = String::new();
        signed.append("-");
        signed.append(digits.as_str());
        signed
    } else {
        zero_padded_string(year as u64, 4)
    };
    proof {
        assert(r@ == year_text(year as int));
    }
    r.append("-");
    r.append(zero_padded_string(month as u64, 2).as_str());
    r.append("-");
    r.append(zero_padded_string(day as u64, 2).as_str());
    r
}

/// The UTC calendar date of a Unix time, as `YYYY-MM-DD`: the date
/// `civil_from_days` gives for the whole days since the epoch.
pub fn utc_date(seconds: u64) -> (r: String)
    requires
        seconds / SECONDS_PER_DAY <= 780_000_000_000,
    ensures
        exists|y: int, m: int, d: int|
            1 <= m <= 12 && 1 <= d <= days_in_month(leap_year(y), m)
            && days_from_civil(y, m, d) == seconds / SECONDS_PER_DAY
            && 1970 <= y
            && r@ == #[trigger] utc_date_spec(y, m, d),
{
    let days = seconds / SECONDS_PER_DAY;
    let (year, month, day) = civil_from_days(days as i64);
    proof {
        lemma_civil_year_from_epoch(year as int, month as int, day as int, days as int);
    }
    date_text(year, month, day)
}

proof fn lemma_civil_year_from_epoch(y: int, m: int, d: int, days: int)
    requires
        days >= 0,
        1 <= m <= 12,
        1 <= d <= 31,
        days_from_civil(y, m, d) == days,
    ensures
        1970 <= y,
{
    let y2 = if m <= 2 { y - 1 } else { y };
    let era = y2 / 400;
    let yoe = y2 - era * 400;
    let mp = if m > 2 { m - 3 } else { m + 9 };
    vstd::arithmetic::div_mod::lemma_fundamental_div_mod(y2, 400);
    assert(0 <= yoe < 400);
    assert(0 <= (153 * mp + 2) / 5 <= 337);
    assert(yoe / 4 <= 99 && yoe / 100 <= 3);
    if y < 1970 {
        assert(y2 <= 1969);
        assert(era <= 4);
        if era <= 3 {
            assert(era * 146097 <= 438291) by (nonlinear_arith) requires era <= 3;
        } else {
            assert(yoe == y2 - 1600);
            assert(yoe <= 369);
        }
        assert(false);
    }
}


/// A timestamp as Unix seconds, a dot, nine digits of nanoseconds, and `Z`.
pub open spec fn timestamp_spec(seconds: nat, nanos: nat) -> Seq<char> {
    decimal(seconds) + "."@ + zero_padded(nanos, 9) + "Z"@
}

/// A timestamp as Unix seconds, a dot, nine digits of nanoseconds, and `Z`.
pub fn format_timestamp(seconds: u64, nanos: u32) -> (r: String)
    ensures
        r@ == timestamp_spec(seconds as nat, nanos as nat),
{
    let mut r = decimal_string(seconds);
    r.append(".");
    r.append(zero_padded_string(nanos as u64, 9).as_str());
    r.append("Z");
    r
}

/// A short run token from four random bytes: eight lowercase hex digits.
pub fn token_from_bytes(b0: u8, b1: u8, b2: u8, b3: u8) -> (r: String)
    ensures
        r@ == hex_fixed(b0 as nat, 2) + hex_fixed(b1 as nat, 2) + hex_fixed(b2 as nat, 2) + hex_fixed(b3 as nat, 2),
{
    let mut r = hex_string(b0 as u64, 2);
    r.append(hex_string(b1 as u64, 2).as_str());
    r.append(hex_string(b2 as u64, 2).as_str());
    r.append(hex_string(b3 as u64, 2).as_str());
    r
}

/// A short run token when no random bytes can be read: the sub-second
/// nanoseconds and the process ID in hex, made safe as a path component.
pub fn token_from_time(nanos: u32, process_id: u32) -> (r: String)
    ensures
        r@ == sanitize_spec(hex_digits(nanos as nat) + hex_digits(process_id as nat)),
{
    let mut t = hex_plain(nanos as u64);
    t.append(hex_plain(process_id as u64).as_str());
    sanitize_component(t.as_str())
}

/// Where a new run is recorded, and what its metadata starts with.
#[derive(Debug)]
pub struct RunPlan {
    /// The run on disk.
    pub local: LocalRun,
    /// When the run started.
    pub timestamp: String,
    /// The random part of the run ID.
    pub short_random: String,
    /// Operating system and architecture, as `os-arch`.
    pub platform: String,
    /// The app manifest of the app root.
    pub app_manifest: String,
    /// Upload state recorded at the start: `requested` or `not-requested`.
    pub upload_status: String,
}

/// The directory name of a run: seconds, platform and token, each safe as
/// a path component.
pub open spec fn run_dir_name(seconds: nat, platform: Seq<char>, short_random: Seq<char>) -> Seq<char> {
    decimal(seconds) + "-"@ + sanitize_spec(platform) + "-"@ + sanitize_spec(short_random)
}

/// The identifier of a run: seconds, safe platform, and token.
pub open spec fn run_id_spec(seconds: nat, platform: Seq<char>, short_random: Seq<char>) -> Seq<char> {
    decimal(seconds) + "-"@ + sanitize_spec(platform) + "-"@ + short_random
}

/// The directory of a run started at `seconds` under an app root: the runs
/// directory, then the UTC date, then the run's own name.
pub open spec fn run_dir_spec(app_root: Seq<char>, date: Seq<char>, seconds: nat, platform: Seq<char>, short_random: Seq<char>) -> Seq<char> {
    join(join(run_directory_spec(app_root), date), run_dir_name(seconds, platform, short_random))
}

/// Where a run started at `seconds` (and `nanos`) on `platform` with token
/// `short_random` is recorded under `app_root`: its ID, its directory under
/// the day's UTC date, its `metadata.toml` and `vapor.log`, and the upload
/// state it starts in.
pub fn plan_run(app_root: &str, seconds: u64, nanos: u32, platform: &str, short_random: &str, upload: bool) -> (r: RunPlan)
    requires
        seconds / SECONDS_PER_DAY <= 780_000_000_000,
    ensures
        exists|y: int, m: int, d: int|
            1 <= m <= 12 && 1 <= d <= days_in_month(leap_year(y), m)
            && days_from_civil(y, m, d) == seconds / SECONDS_PER_DAY
            && r.local.run_dir@ == #[trigger] run_dir_spec(app_root@, utc_date_spec(y, m, d), seconds as nat, platform@, short_random@),
        r.local.run_id@ == run_id_spec(seconds as nat, platform@, short_random@),
        r.local.metadata_path@ == join(r.local.run_dir@, "metadata.toml"@),
        r.local.log_path@ == join(r.local.run_dir@, "vapor.log"@),
        r.timestamp@ == timestamp_spec(seconds as nat, nanos as nat),
        r.short_random@ == short_random@,
        r.platform@ == platform@,
        r.app_manifest@ == join(app_root@, APP_FILE_NAME@),
        r.upload_status@ == (if upload { "requested"@ } else { "not-requested"@ }),
{
    let seconds_text = decimal_string(seconds);
    let safe_platform = sanitize_component(platform);
    let mut run_id = concat3(seconds_text.as_str(), "-", safe_platform.as_str());
    run_id.append("-");
    run_id.append(short_random);
    let mut name = concat3(seconds_text.as_str(), "-", safe_platform.as_str());
    name.append("-");
    name.append(sanitize_component(short_random).as_str());
    let days = seconds / SECONDS_PER_DAY;
    let (year, month, day) = civil_from_days(days as i64);
    proof {
        lemma_civil_year_from_epoch(year as int, month as int, day as int, days as int);
    }
    let date = date_text(year, month, day);
    let run_dir = join_path(&join_path(&run_directory(app_root), date.as_str()), name.as_str());
    let metadata_path = join_path(run_dir.as_str(), "metadata.toml");
    let log_path = join_path(run_dir.as_str(), "vapor.log");
    assert(run_dir@ == run_dir_spec(app_root@, utc_date_spec(year as int, month as int, day as int), seconds as nat, platform@, short_random@));
    RunPlan {
        local: LocalRun { run_id, run_dir, metadata_path, log_path },
        timestamp: format_timestamp(seconds, nanos),
        short_random: owned(short_random),
        platform: owned(platform),
        app_manifest: join_path(app_root, APP_FILE_NAME),
        upload_status: if upload { owned("requested") } else { owned("not-requested") },
    }
}

/// The pointer file's record of the latest run.
#[derive(Debug, Clone)]
pub struct LatestPointer {
    /// Pointer format version.
    pub schema: u32,
    /// Run identifier.
    pub run_id: String,
    /// Directory holding the run.
    pub run_dir: String,
    /// The run's metadata file.
    pub metadata: String,
    /// The run's log file.
    pub log: String,
    /// When the pointer was written.
    pub updated_at: String,
}

/// The pointer to `run`, written at `updated_at`.
pub fn latest_pointer(run: &LocalRun, updated_at: &str) -> (r: LatestPointer)
    ensures
        r.schema == 1,
        r.run_id@ == run.run_id@,
        r.run_dir@ == run.run_dir@,
        r.metadata@ == run.metadata_path@,
        r.log@ == run.log_path@,
        r.updated_at@ == updated_at@,
{
    LatestPointer {
        schema: 1,
        run_id: owned(run.run_id.as_str()),
        run_dir: owned(run.run_dir.as_str()),
        metadata: owned(run.metadata_path.as_str()),
        log: owned(run.log_path.as_str()),
        updated_at: owned(updated_at),
    }
}

/// The run a pointer names, when its log file exists.
pub fn run_from_pointer(pointer: LatestPointer, log_is_file: bool) -> (r: Option<LocalRun>)
    ensures
        !log_is_file ==> r is None,
        log_is_file ==> (r matches Some(run) && run.run_id == pointer.run_id && run.run_dir == pointer.run_dir
            && run.metadata_path == pointer.metadata && run.log_path == pointer.log),
{
    if log_is_file {
        Some(LocalRun { run_id: pointer.run_id, run_dir: pointer.run_dir, metadata_path: pointer.metadata, log_path: pointer.log })
    } else {
        None
    }
}

/// Keep only the last `max` entries, dropping the oldest.
pub fn trim_vec(values: &mut Vec<String>, max: usize)
    ensures
        old(values)@.len() <= max ==> final(values)@ == old(values)@,
        old(values)@.len() > max ==> final(values)@ == old(values)@.skip(old(values)@.len() - max),
{
    let n = values.len();
    if n <= max {
        return;
    }
    let mut kept: Vec<String> = Vec::new();
    let mut i: usize = n - max;
    while i < n
        invariant
            n == values@.len(),
            n > max,
            n - max <= i <= n,
            kept@ == values@.subrange((n - max) as int, i as int),
        decreases n - i,
    {
        let item = values[i].clone();
        proof {
            assert(item == values@[i as int]);
        }
        kept.push(item);
        proof {
            assert(kept@ =~= values@.subrange((n - max) as int, i + 1));
        }
        i = i + 1;
    }
    proof {
        assert(kept@ =~= old(values)@.skip(old(values)@.len() - max));
    }
    *values = kept;
}

/// The upload transport of this build, which is not configured: it never
/// sends anything.
#[derive(Debug, Clone, Copy)]
pub struct FutureHttpServerTransport;

/// Message of the unconfigured transport.
pub open spec fn msg_transport_not_configured() -> Seq<char> {
    "diagnostics upload transport is not configured in this build; future server upload will attach here"@
}

impl FutureHttpServerTransport {
    /// Transport name recorded in metadata.
    pub fn name(&self) -> (r: &'static str)
        ensures
            r@ == "future-http-server"@,
    {
        "future-http-server"
    }

    /// Whether the transport can send: never, in this build.
    pub fn configured(&self) -> (r: bool)
        ensures
            !r,
    {
        false
    }

    /// Why the transport cannot send.
    pub fn not_configured_message(&self) -> (r: String)
        ensures
            r@ == msg_transport_not_configured(),
    {
        owned("diagnostics upload transport is not configured in this build; future server upload will attach here")
    }

    /// Send a run: a dry run succeeds, anything else fails, pointing at the
    /// local run.
    pub fn upload(&self, run: &LocalRun, dry_run: bool) -> (r: Result<(), String>)
        ensures
            dry_run ==> r is Ok,
            !dry_run ==> (r matches Err(e) && e@ == msg_transport_not_configured() + "; local run is at "@ + run.run_dir@),
    {
        if dry_run {
            return Ok(());
        }
        let mut e = self.not_configured_message();
        e.append("; local run is at ");
        e.append(run.run_dir.as_str());
        Err(e)
    }
}

/// What an explicit upload did.
#[derive(Debug)]
pub struct UploadReport {
    /// The run offered for upload.
    pub run: LocalRun,
    /// Transport name.
    pub transport: String,
    /// Whether the run was sent.
    pub sent: bool,
    /// Whether this was a dry run.
    pub dry_run: bool,
}

impl UploadReport {
    /// The run offered for upload.
    pub fn run(&self) -> (r: &LocalRun)
        ensures
            *r == self.run,
    {
        &self.run
    }

    /// Transport name.
    pub fn transport(&self) -> (r: &str)
        ensures
            r@ == self.transport@,
    {
        self.transport.as_str()
    }

    /// Whether the run was sent.
    pub fn sent(&self) -> (r: bool)
        ensures
            r == self.sent,
    {
        self.sent
    }

    /// Whether this was a dry run.
    pub fn dry_run(&self) -> (r: bool)
        ensures
            r == self.dry_run,
    {
        self.dry_run
    }
}

/// Upload the current run, else the latest recorded one: a dry run reports
/// what would be sent; a real upload goes through the transport, which in
/// this build refuses.
pub fn upload(current: Option<LocalRun>, latest: Option<LocalRun>, app_root: &str, dry_run: bool) -> (r: Result<UploadReport, String>)
    ensures
        current is None && latest is None ==> (r matches Err(e) && e@ == "no diagnostics runs found in "@ + run_directory_spec(app_root@)),
        (current is Some || latest is Some) && dry_run ==> (r matches Ok(rep) && !rep.sent && rep.dry_run
            && rep.transport@ == "future-http-server"@
            && rep.run == (match current { Some(c) => c, None => latest->Some_0 })),
        (current is Some || latest is Some) && !dry_run ==> (r matches Err(e) && e@ == msg_transport_not_configured()
            + "; local run is at "@ + (match current { Some(c) => c, None => latest->Some_0 }).run_dir@),
{
    let run = match current {
        Some(c) => c,
        None => match latest {
            Some(l) => l,
            None => {
                return Err(concat("no diagnostics runs found in ", run_directory(app_root).as_str()));
            },
        },
    };
    let transport = FutureHttpServerTransport;
    if dry_run {
        return Ok(UploadReport { run, transport: owned(transport.name()), sent: false, dry_run: true });
    }
    transport.upload(&run, false)?;
    Ok(UploadReport { run, transport: owned(transport.name()), sent: true, dry_run: false })
}

/// How an upload at the end of a run is recorded: `not-configured` with
/// the transport's message, `failed` with the error, or `sent`.
pub fn finish_upload_status(run: &LocalRun) -> (r: (&'static str, Option<String>))
    ensures
        r.0@ == "not-configured"@,
        r.1 matches Some(d) && d@ == msg_transport_not_configured(),
{
    let transport = FutureHttpServerTransport;
    if !transport.configured() {
        return ("not-configured", Some(transport.not_configured_message()));
    }
    match transport.upload(run, false) {
        Err(e) => ("failed", Some(e)),
        Ok(()) => ("sent", None),
    }
}


/// `w` occurs in `s` at `i` as a whole part: not preceded or followed by an
/// ASCII letter or digit.
pub open spec fn part_at(s: Seq<char>, w: Seq<char>, i: int) -> bool {
    &&& occurs_at(s, w, i)
    &&& (i == 0 || !is_alnum(s[i - 1]))
    &&& (i + w.len() == s.len() || !is_alnum(s[i + w.len()]))
}

/// `w` is one of the parts of `s` split at characters that are not ASCII
/// letters or digits.
pub open spec fn has_part(s: Seq<char>, w: Seq<char>) -> bool {
    exists|i: int| part_at(s, w, i)
}

/// Whether a name (an argument name, a key, a value) looks like it holds a
/// secret: its ASCII lowercase holds a password, token, secret, credential,
/// cookie, authorization or ticket marker, or has `key`, `auth` or `ticket`
/// as a whole part.
pub open spec fn sensitive_name(name: Seq<char>) -> bool {
    let l = ascii_lowercase(name);
    ||| has_infix(l, "password"@) || has_infix(l, "passwd"@) || has_infix(l, "token"@) || has_infix(l, "secret"@)
    ||| has_infix(l, "credential"@) || has_infix(l, "credentials"@) || has_infix(l, "cookie"@) || has_infix(l, "authorization"@)
    ||| has_infix(l, "refresh_token"@) || has_infix(l, "access_token"@) || has_infix(l, "authticket"@) || has_infix(l, "auth_ticket"@)
    ||| has_infix(l, "sessionticket"@) || has_infix(l, "session_ticket"@)
    ||| has_part(l, "key"@) || has_part(l, "auth"@) || has_part(l, "ticket"@)
}

fn has_part_exec(s: &str, w: &str) -> (r: bool)
    requires
        w@.len() > 0,
    ensures
        r == has_part(s@, w@),
{
    let n = s.unicode_len();
    let m = w.unicode_len();
    if m > n {
        assert forall|i: int| !part_at(s@, w@, i) by {}
        return false;
    }
    let mut i: usize = 0;
    while i <= n - m
        invariant
            n == s@.len(),
            m == w@.len(),
            0 < m <= n,
            i <= n - m + 1,
            forall|k: int| 0 <= k < i ==> !part_at(s@, w@, k),
        decreases n - m + 1 - i,
    {
        if occurs_at_exec(s, w, i) {
            let before_ok = i == 0 || !char_is_alnum(s.get_char(i - 1));
            let after_ok = i + m == n || !char_is_alnum(s.get_char(i + m));
            if before_ok && after_ok {
                assert(part_at(s@, w@, i as int));
                return true;
            }
        }
        i = i + 1;
    }
    assert forall|k: int| !part_at(s@, w@, k) by {
        if 0 <= k < i {
        } else {
            assert(!occurs_at(s@, w@, k));
        }
    }
    false
}

/// Whether a name looks like it holds a secret.
pub fn is_sensitive_name(name: &str) -> (r: bool)
    ensures
        r == sensitive_name(name@),
{
    let lower = to_ascii_lowercase(name);
    let l = lower.as_str();
    proof {
        reveal_strlit("key");
        reveal_strlit("auth");
        reveal_strlit("ticket");
    }
    contains(l, "password") || contains(l, "passwd") || contains(l, "token") || contains(l, "secret")
        || contains(l, "credential") || contains(l, "credentials") || contains(l, "cookie") || contains(l, "authorization")
        || contains(l, "refresh_token") || contains(l, "access_token") || contains(l, "authticket") || contains(l, "auth_ticket")
        || contains(l, "sessionticket") || contains(l, "session_ticket")
        || has_part_exec(l, "key") || has_part_exec(l, "auth") || has_part_exec(l, "ticket")
}

/// A name is treated as secret whenever its ASCII lowercase form contains
/// one of the markers `password`, `passwd`, `token`, `secret`, `credential`,
/// `credentials`, `cookie`, `authorization`, `refresh_token`,
/// `access_token`, `authticket`, `auth_ticket`, `sessionticket` or
/// `session_ticket`, or has `key`, `auth` or `ticket` as a whole part; and
/// only then.
pub proof fn law_secret_markers(name: Seq<char>)
    ensures
        has_infix(ascii_lowercase(name), "password"@) ==> sensitive_name(name),
        has_infix(ascii_lowercase(name), "passwd"@) ==> sensitive_name(name),
        has_infix(ascii_lowercase(name), "token"@) ==> sensitive_name(name),
        has_infix(ascii_lowercase(name), "secret"@) ==> sensitive_name(name),
        has_infix(ascii_lowercase(name), "credential"@) ==> sensitive_name(name),
        has_infix(ascii_lowercase(name), "credentials"@) ==> sensitive_name(name),
        has_infix(ascii_lowercase(name), "cookie"@) ==> sensitive_name(name),
        has_infix(ascii_lowercase(name), "authorization"@) ==> sensitive_name(name),
        has_infix(ascii_lowercase(name), "refresh_token"@) ==> sensitive_name(name),
        has_infix(ascii_lowercase(name), "access_token"@) ==> sensitive_name(name),
        has_infix(ascii_lowercase(name), "authticket"@) ==> sensitive_name(name),
        has_infix(ascii_lowercase(name), "auth_ticket"@) ==> sensitive_name(name),
        has_infix(ascii_lowercase(name), "sessionticket"@) ==> sensitive_name(name),
        has_infix(ascii_lowercase(name), "session_ticket"@) ==> sensitive_name(name),
        has_part(ascii_lowercase(name), "key"@) ==> sensitive_name(name),
        has_part(ascii_lowercase(name), "auth"@) ==> sensitive_name(name),
        has_part(ascii_lowercase(name), "ticket"@) ==> sensitive_name(name),
        sensitive_name(name) ==> has_infix(ascii_lowercase(name), "password"@) || has_infix(ascii_lowercase(name), "passwd"@)
            || has_infix(ascii_lowercase(name), "token"@) || has_infix(ascii_lowercase(name), "secret"@)
            || has_infix(ascii_lowercase(name), "credential"@) || has_infix(ascii_lowercase(name), "credentials"@)
            || has_infix(ascii_lowercase(name), "cookie"@) || has_infix(ascii_lowercase(name), "authorization"@)
            || has_infix(ascii_lowercase(name), "refresh_token"@) || has_infix(ascii_lowercase(name), "access_token"@)
            || has_infix(ascii_lowercase(name), "authticket"@)
            || has_infix(ascii_lowercase(name), "auth_ticket"@) || has_infix(ascii_lowercase(name), "sessionticket"@)
            || has_infix(ascii_lowercase(name), "session_ticket"@) || has_part(ascii_lowercase(name), "key"@)
            || has_part(ascii_lowercase(name), "auth"@) || has_part(ascii_lowercase(name), "ticket"@),
{
}

/// A `NAME=VALUE` word whose name (leading `-` aside) looks secret is
/// recorded as `NAME=<redacted>`, and the word after it is left alone:
/// `cookie=abc123` becomes `cookie=<redacted>`.
pub proof fn law_secret_assignment_redacted(name: Seq<char>, value: Seq<char>)
    requires
        !name.contains('='),
        sensitive_name(trim_dash_start(name)),
    ensures
        redact_word_spec(name + seq!['='] + value) == (name + "=<redacted>"@, false),
{
    let w = name + seq!['='] + value;
    assert forall|k: int| 0 <= k < name.len() implies w[k] != '=' by {
        assert(w[k] == name[k]);
        if w[k] == '=' {
            assert(name.contains('='));
        }
    }
    crate::text::lemma_index_of_at(w, '=', name.len() as int);
    assert(w.subrange(0, name.len() as int) =~= name);
}

/// One word as recorded, and whether the word after it is a secret: a
/// `NAME=VALUE` whose name or value looks secret keeps only `NAME=`; a
/// secret-looking `NAME:` or `--NAME` hides the next word.
pub open spec fn redact_word_spec(word: Seq<char>) -> (Seq<char>, bool) {
    let eq = index_of(word, '=');
    let name = word.subrange(0, eq);
    let value = word.subrange(eq + 1, word.len() as int);
    if eq >= 0 && (sensitive_name(trim_dash_start(name)) || sensitive_name(value)) {
        (name + "=<redacted>"@, false)
    } else if word.len() > 0 && word.last() == ':' && sensitive_name(trim_dash_start(word.drop_last())) {
        (word.drop_last() + ":<redacted>"@, true)
    } else if word.len() > 0 && word[0] == '-' && sensitive_name(trim_dash_start(word)) {
        (word, true)
    } else {
        (word, false)
    }
}

fn trim_dashes_front(s: &str) -> (r: &str)
    ensures
        r@ == trim_dash_start(s@),
{
    let n = s.unicode_len();
    let mut a: usize = 0;
    while a < n && s.get_char(a) == '-'
        invariant
            n == s@.len(),
            a <= n,
            forall|k: int| 0 <= k < a ==> s@[k] == '-',
        decreases n - a,
    {
        a = a + 1;
    }
    proof {
        lemma_trim_dash_start_at(s@, a as int);
    }
    s.substring_char(a, n)
}

/// One word as recorded, and whether the next word is hidden.
pub fn redact_word(word: &str) -> (r: (String, bool))
    ensures
        (r.0@, r.1) == redact_word_spec(word@),
{
    let n = word.unicode_len();
    match find_char(word, '=') {
        Some(eq) => {
            let name = word.substring_char(0, eq);
            let value = word.substring_char(eq + 1, n);
            if is_sensitive_name(trim_dashes_front(name)) || is_sensitive_name(value) {
                return (concat(name, "=<redacted>"), false);
            }
        },
        None => {},
    }
    if n > 0 && word.get_char(n - 1) == ':' {
        let name = word.substring_char(0, n - 1);
        assert(name@ =~= word@.drop_last());
        if is_sensitive_name(trim_dashes_front(name)) {
            return (concat(name, ":<redacted>"), true);
        }
    }
    if n > 0 && word.get_char(0) == '-' && is_sensitive_name(trim_dashes_front(word)) {
        return (owned(word), true);
    }
    (owned(word), false)
}

/// The recorded form of a word list, `pending` saying whether the first
/// word is a secret to hide.
pub open spec fn redact_from(words: Seq<Seq<char>>, pending: bool) -> Seq<Seq<char>>
    decreases words.len(),
{
    if words.len() == 0 {
        Seq::empty()
    } else if pending {
        seq!["<redacted>"@] + redact_from(words.drop_first(), false)
    } else {
        seq![redact_word_spec(words[0]).0] + redact_from(words.drop_first(), redact_word_spec(words[0]).1)
    }
}

/// The recorded form of a word list: each word redacted, and each word
/// that follows a secret-looking flag replaced by `<redacted>`.
pub fn redact_words(words: &[String]) -> (r: Vec<String>)
    ensures
        string_views(r@) == redact_from(string_views(words@), false),
{
    let ghost all = string_views(words@);
    let mut out: Vec<String> = Vec::new();
    let mut pending = false;
    let mut i: usize = 0;
    assert(all.skip(0) =~= all);
    while i < words.len()
        invariant
            i <= words@.len(),
            all == string_views(words@),
            string_views(out@) + redact_from(all.skip(i as int), pending) == redact_from(all, false),
        decreases words@.len() - i,
    {
        let ghost rest = all.skip(i as int);
        assert(rest.drop_first() =~= all.skip(i + 1));
        assert(rest[0] == words@[i as int]@);
        let ghost before = out@;
        let ghost was_pending = pending;
        if pending {
            out.push(owned("<redacted>"));
            pending = false;
        } else {
            let (value, consumes) = redact_word(words[i].as_str());
            out.push(value);
            pending = consumes;
        }
        proof {
            assert(string_views(out@) =~= string_views(before).push(out@.last()@));
            assert(redact_from(rest, was_pending) == seq![out@.last()@] + redact_from(all.skip(i + 1), pending));
            assert(string_views(out@) + redact_from(all.skip(i + 1), pending)
                =~= string_views(before) + redact_from(rest, was_pending));
        }
        i = i + 1;
    }
    proof {
        assert(all.skip(words@.len() as int) =~= Seq::<Seq<char>>::empty());
        assert(string_views(out@) + Seq::<Seq<char>>::empty() =~= string_views(out@));
    }
    out
}


/// The whitespace-separated words of `s`, `cur` being the part of a word
/// already read.
pub open spec fn words_from(s: Seq<char>, cur: Seq<char>) -> Seq<Seq<char>>
    decreases s.len(),
{
    if s.len() == 0 {
        if cur.len() > 0 { seq![cur] } else { Seq::empty() }
    } else if is_space(s[0]) {
        (if cur.len() > 0 { seq![cur] } else { Seq::empty() }) + words_from(s.drop_first(), Seq::empty())
    } else {
        words_from(s.drop_first(), cur.push(s[0]))
    }
}

/// The words of `s`, as `str::split_whitespace` yields them: the maximal
/// runs of characters that are not whitespace.
pub open spec fn whitespace_words(s: Seq<char>) -> Seq<Seq<char>> {
    words_from(s, Seq::empty())
}

/// The words of `s`, as `str::split_whitespace` yields them.
pub fn split_whitespace(s: &str) -> (r: Vec<String>)
    ensures
        string_views(r@) == whitespace_words(s@),
{
    let n = s.unicode_len();
    let mut out: Vec<String> = Vec::new();
    let mut cur = String::new();
    let mut i: usize = 0;
    assert(s@.skip(0) =~= s@);
    while i < n
        invariant
            n == s@.len(),
            i <= n,
            string_views(out@) + words_from(s@.skip(i as int), cur@) == whitespace_words(s@),
        decreases n - i,
    {
        let ghost rest = s@.skip(i as int);
        assert(rest.drop_first() =~= s@.skip(i + 1));
        assert(rest[0] == s@[i as int]);
        let ghost before = out@;
        let ghost cur_before = cur@;
        let c = s.get_char(i);
        if char_is_space(c) {
            if cur.unicode_len() > 0 {
                let mut word = String::new();
                std::mem::swap(&mut word, &mut cur);
                out.push(word);
                proof {
                    assert(string_views(out@) =~= string_views(before).push(cur_before));
                }
            }
            proof {
                assert(cur@ =~= Seq::<char>::empty());
                assert(string_views(out@) + words_from(s@.skip(i + 1), cur@)
                    =~= string_views(before) + words_from(rest, cur_before));
            }
        } else {
            cur.append(s.substring_char(i, i + 1));
            proof {
                assert(cur@ =~= cur_before.push(c));
            }
        }
        i = i + 1;
    }
    if cur.unicode_len() > 0 {
        let ghost before = out@;
        let ghost last = cur@;
        out.push(cur);
        proof {
            assert(string_views(out@) =~= string_views(before).push(last));
        }
    }
    proof {
        assert(s@.skip(n as int) =~= Seq::<char>::empty());
        assert(string_views(out@) =~= whitespace_words(s@));
    }
    out
}

/// How free text is recorded: its whitespace-separated words redacted and
/// joined with single spaces.
pub open spec fn redact_text_spec(text: Seq<char>) -> Seq<char> {
    joined(redact_from(whitespace_words(text), false), " "@)
}

/// How free text is recorded.
pub fn redact_text(text: &str) -> (r: String)
    ensures
        r@ == redact_text_spec(text@),
{
    let words = split_whitespace(text);
    let redacted = redact_words(words.as_slice());
    join_strings(redacted.as_slice(), " ")
}

/// One line of the run log: the timestamp in brackets, then the redacted
/// message.
pub fn log_line(timestamp: &str, message: &str) -> (r: String)
    ensures
        r@ == "["@ + timestamp@ + "] "@ + redact_text_spec(message@),
{
    let mut r = concat3("[", timestamp, "] ");
    r.append(redact_text(message).as_str());
    r
}


/// A safe path component: not empty, only ASCII letters, digits, `-`, `_`
/// and `.`, no `-` at either end, and never two `-` in a row.
pub open spec fn safe_component(t: Seq<char>) -> bool {
    &&& t.len() > 0
    &&& forall|i: int| 0 <= i < t.len() ==> component_char(#[trigger] t[i])
    &&& t[0] != '-'
    &&& t.last() != '-'
    &&& forall|i: int| 0 <= i < t.len() - 1 ==> !(#[trigger] t[i] == '-' && t[i + 1] == '-')
}

proof fn lemma_collapse(s: Seq<char>)
    requires
        forall|i: int| 0 <= i < s.len() ==> component_char(#[trigger] s[i]),
    ensures
        forall|i: int| 0 <= i < collapse_dashes(s).len() ==> component_char(#[trigger] collapse_dashes(s)[i]),
        forall|i: int| 0 <= i < collapse_dashes(s).len() - 1 ==> !(#[trigger] collapse_dashes(s)[i] == '-' && collapse_dashes(s)[i + 1] == '-'),
        (forall|i: int| 0 <= i < s.len() - 1 ==> !(#[trigger] s[i] == '-' && s[i + 1] == '-')) ==> collapse_dashes(s) == s,
    decreases s.len(),
{
    if s.len() > 0 {
        let p = s.drop_last();
        assert forall|i: int| 0 <= i < p.len() implies component_char(#[trigger] p[i]) by {
            assert(p[i] == s[i]);
        }
        lemma_collapse(p);
        let r = collapse_dashes(p);
        if forall|i: int| 0 <= i < s.len() - 1 ==> !(#[trigger] s[i] == '-' && s[i + 1] == '-') {
            assert forall|i: int| 0 <= i < p.len() - 1 implies !(#[trigger] p[i] == '-' && p[i + 1] == '-') by {
                assert(p[i] == s[i] && p[i + 1] == s[i + 1]);
            }
            assert(r == p);
            if s.len() >= 2 {
                assert(!(s[s.len() - 2] == '-' && s[s.len() - 1] == '-'));
            }
            assert(p.push(s.last()) =~= s);
        }
        let c = collapse_dashes(s);
        assert forall|i: int| 0 <= i < c.len() implies component_char(#[trigger] c[i]) by {
            if i < r.len() {
                assert(c[i] == r[i]);
            }
        }
        assert forall|i: int| 0 <= i < c.len() - 1 implies !(#[trigger] c[i] == '-' && c[i + 1] == '-') by {
            if i + 1 < r.len() {
                assert(c[i] == r[i] && c[i + 1] == r[i + 1]);
            } else {
                assert(c[i] == r[i]);
            }
        }
    }
}

proof fn lemma_trim_start_shape(s: Seq<char>) -> (k: int)
    ensures
        0 <= k <= s.len(),
        trim_dash_start(s) == s.subrange(k, s.len() as int),
        k == s.len() || s[k] != '-',
    decreases s.len(),
{
    if s.len() > 0 && s[0] == '-' {
        let k = lemma_trim_start_shape(s.drop_first());
        assert(s.drop_first().subrange(k, s.drop_first().len() as int) =~= s.subrange(k + 1, s.len() as int));
        if k < s.drop_first().len() {
            assert(s[k + 1] == s.drop_first()[k]);
        }
        k + 1
    } else {
        assert(s.subrange(0, s.len() as int) =~= s);
        0
    }
}

proof fn lemma_trim_end_shape(s: Seq<char>) -> (k: int)
    ensures
        0 <= k <= s.len(),
        trim_dash_end(s) == s.subrange(0, k),
        k == 0 || s[k - 1] != '-',
    decreases s.len(),
{
    if s.len() > 0 && s.last() == '-' {
        let k = lemma_trim_end_shape(s.drop_last());
        assert(s.drop_last().subrange(0, k) =~= s.subrange(0, k));
        if k > 0 {
            assert(s[k - 1] == s.drop_last()[k - 1]);
        }
        k
    } else {
        assert(s.subrange(0, s.len() as int) =~= s);
        s.len() as int
    }
}

/// Whatever value names a run, what goes into its directory name is a safe
/// path component.
pub proof fn law_sanitized_component_is_safe(value: Seq<char>)
    ensures
        safe_component(sanitize_spec(value)),
{
    let mapped = value.map_values(|c: char| if component_char(c) { c } else { '-' });
    assert forall|i: int| 0 <= i < mapped.len() implies component_char(#[trigger] mapped[i]) by {}
    lemma_collapse(mapped);
    let c = collapse_dashes(mapped);
    let ka = lemma_trim_start_shape(c);
    let a = trim_dash_start(c);
    let kb = lemma_trim_end_shape(a);
    let t = trim_dash_end(a);
    if t.len() == 0 {
        reveal_strlit("unknown");
        assert(sanitize_spec(value) == "unknown"@);
    } else {
        assert(t =~= c.subrange(ka, ka + kb));
        assert forall|i: int| 0 <= i < t.len() implies component_char(#[trigger] t[i]) by {
            assert(t[i] == c[ka + i]);
        }
        assert forall|i: int| 0 <= i < t.len() - 1 implies !(#[trigger] t[i] == '-' && t[i + 1] == '-') by {
            assert(t[i] == c[ka + i] && t[i + 1] == c[ka + i + 1]);
        }
        assert(t[0] == a[0]);
        assert(t.last() == a[kb - 1]);
    }
}

/// Sanitizing a safe component changes nothing, so sanitizing twice is the
/// same as sanitizing once.
pub proof fn law_sanitize_idempotent(value: Seq<char>)
    ensures
        safe_component(value) ==> sanitize_spec(value) == value,
        sanitize_spec(sanitize_spec(value)) == sanitize_spec(value),
{
    if safe_component(value) {
        let mapped = value.map_values(|c: char| if component_char(c) { c } else { '-' });
        assert(mapped =~= value);
        lemma_collapse(value);
        lemma_trim_dash_start_at(value, 0);
        assert(value.subrange(0, value.len() as int) =~= value);
        lemma_trim_dash_end_at(value, value.len() as int);
    }
    law_sanitized_component_is_safe(value);
    let s = sanitize_spec(value);
    let mapped = s.map_values(|c: char| if component_char(c) { c } else { '-' });
    assert(mapped =~= s);
    lemma_collapse(s);
    lemma_trim_dash_start_at(s, 0);
    assert(s.subrange(0, s.len() as int) =~= s);
    lemma_trim_dash_end_at(s, s.len() as int);
}


/// The marker that stands for a hidden value.
pub open spec fn redacted_marker() -> Seq<char> {
    seq!['<', 'r', 'e', 'd', 'a', 'c', 't', 'e', 'd', '>']
}

proof fn lemma_redacted_literals()
    ensures
        "<redacted>"@ == redacted_marker(),
        "=<redacted>"@ == seq!['='] + redacted_marker(),
        ":<redacted>"@ == seq![':'] + redacted_marker(),
{
    reveal_strlit("<redacted>");
    reveal_strlit("=<redacted>");
    reveal_strlit(":<redacted>");
    assert("<redacted>"@ =~= redacted_marker());
    assert("=<redacted>"@ =~= seq!['='] + redacted_marker());
    assert(":<redacted>"@ =~= seq![':'] + redacted_marker());
}

/// A pattern cannot occur where its `k`-th character never lines up.
proof fn lemma_absent_at(s: Seq<char>, p: Seq<char>, k: int)
    requires
        0 <= k < p.len(),
        forall|j: int| k <= j && j - k + p.len() <= s.len() ==> #[trigger] s[j] != p[k],
    ensures
        !has_infix(s, p),
        !has_part(s, p),
{
    assert forall|i: int| !occurs_at(s, p, i) by {
        if occurs_at(s, p, i) {
            assert(s.subrange(i, i + p.len())[k] == s[i + k]);
            assert(s[i + k] != p[k]);
        }
    }
    assert forall|i: int| !part_at(s, p, i) by {}
}

/// The marker itself does not look like a secret.
proof fn lemma_marker_not_sensitive()
    ensures
        !sensitive_name(redacted_marker()),
{
    let s = redacted_marker();
    assert(ascii_lowercase(s) =~= s);
    reveal_strlit("password");
    reveal_strlit("passwd");
    reveal_strlit("token");
    reveal_strlit("secret");
    reveal_strlit("credential");
    reveal_strlit("credentials");
    reveal_strlit("cookie");
    reveal_strlit("authorization");
    reveal_strlit("refresh_token");
    reveal_strlit("access_token");
    reveal_strlit("authticket");
    reveal_strlit("auth_ticket");
    reveal_strlit("sessionticket");
    reveal_strlit("session_ticket");
    reveal_strlit("key");
    reveal_strlit("auth");
    reveal_strlit("ticket");
    lemma_absent_at(s, "password"@, 0);
    lemma_absent_at(s, "passwd"@, 0);
    lemma_absent_at(s, "token"@, 0);
    lemma_absent_at(s, "secret"@, 0);
    lemma_absent_at(s, "credential"@, 0);
    lemma_absent_at(s, "credentials"@, 0);
    lemma_absent_at(s, "cookie"@, 0);
    lemma_absent_at(s, "authorization"@, 0);
    lemma_absent_at(s, "refresh_token"@, 0);
    lemma_absent_at(s, "access_token"@, 0);
    lemma_absent_at(s, "authticket"@, 0);
    lemma_absent_at(s, "auth_ticket"@, 0);
    lemma_absent_at(s, "sessionticket"@, 0);
    lemma_absent_at(s, "session_ticket"@, 0);
    lemma_absent_at(s, "key"@, 0);
    lemma_absent_at(s, "auth"@, 1);
    lemma_absent_at(s, "ticket"@, 0);
}

/// A pattern that does not hold the separator `c` occurs in `a`, `c`, `b`
/// only inside `a` or inside `b`, and every occurrence in `a` remains; the
/// same holds of whole parts when `c` is not a letter or digit.
proof fn lemma_pattern_split(a: Seq<char>, c: char, b: Seq<char>, p: Seq<char>)
    requires
        !is_alnum(c),
        p.len() > 0,
        forall|j: int| 0 <= j < p.len() ==> p[j] != c,
    ensures
        has_infix(a + seq![c] + b, p) ==> has_infix(a, p) || has_infix(b, p),
        has_infix(a, p) ==> has_infix(a + seq![c] + b, p),
        has_part(a + seq![c] + b, p) ==> has_part(a, p) || has_part(b, p),
        has_part(a, p) ==> has_part(a + seq![c] + b, p),
{
    let t = a + seq![c] + b;
    let n = p.len() as int;
    let al = a.len() as int;
    assert(t[al] == c);
    assert forall|i: int| occurs_at(t, p, i) implies occurs_at(a, p, i) || occurs_at(b, p, i - al - 1) by {
        if i + n <= al {
            assert(a.subrange(i, i + n) =~= t.subrange(i, i + n));
        } else if i > al {
            assert(b.subrange(i - al - 1, i - al - 1 + n) =~= t.subrange(i, i + n));
        } else {
            assert(t.subrange(i, i + n)[al - i] == t[al]);
        }
    }
    assert forall|i: int| occurs_at(a, p, i) implies occurs_at(t, p, i) by {
        assert(a.subrange(i, i + n) =~= t.subrange(i, i + n));
    }
    assert forall|i: int| part_at(t, p, i) implies part_at(a, p, i) || part_at(b, p, i - al - 1) by {
        if i + n <= al {
            assert(a.subrange(i, i + n) =~= t.subrange(i, i + n));
            if i > 0 {
                assert(t[i - 1] == a[i - 1]);
            }
            if i + n < al {
                assert(t[i + n] == a[i + n]);
            }
        } else if i > al {
            assert(b.subrange(i - al - 1, i - al - 1 + n) =~= t.subrange(i, i + n));
            if i - al - 1 > 0 {
                assert(t[i - 1] == b[i - al - 2]);
            }
            if i + n < t.len() {
                assert(t[i + n] == b[i - al - 1 + n]);
            }
        } else {
            assert(t.subrange(i, i + n)[al - i] == t[al]);
        }
    }
    assert forall|i: int| part_at(a, p, i) implies part_at(t, p, i) by {
        assert(a.subrange(i, i + n) =~= t.subrange(i, i + n));
        if i > 0 {
            assert(t[i - 1] == a[i - 1]);
        }
        if i + n < al {
            assert(t[i + n] == a[i + n]);
        }
    }
    if has_infix(t, p) {
        let i = choose|i: int| occurs_at(t, p, i);
        assert(occurs_at(a, p, i) || occurs_at(b, p, i - al - 1));
    }
    if has_infix(a, p) {
        let i = choose|i: int| occurs_at(a, p, i);
        assert(occurs_at(t, p, i));
    }
    if has_part(t, p) {
        let i = choose|i: int| part_at(t, p, i);
        assert(part_at(a, p, i) || part_at(b, p, i - al - 1));
    }
    if has_part(a, p) {
        let i = choose|i: int| part_at(a, p, i);
        assert(part_at(t, p, i));
    }
}

/// Behind `=` or `:`, a name looks like a secret exactly when its part
/// before the separator does or its part after it does; a secret-looking
/// part before the separator stays one.
proof fn lemma_sensitive_split(a: Seq<char>, c: char, b: Seq<char>)
    requires
        c == '=' || c == ':',
    ensures
        sensitive_name(a + seq![c] + b) ==> sensitive_name(a) || sensitive_name(b),
        sensitive_name(a) ==> sensitive_name(a + seq![c] + b),
{
    let la = ascii_lowercase(a);
    let lb = ascii_lowercase(b);
    assert(ascii_lowercase(a + seq![c] + b) =~= la + seq![c] + lb);
    reveal_strlit("password");
    reveal_strlit("passwd");
    reveal_strlit("token");
    reveal_strlit("secret");
    reveal_strlit("credential");
    reveal_strlit("credentials");
    reveal_strlit("cookie");
    reveal_strlit("authorization");
    reveal_strlit("refresh_token");
    reveal_strlit("access_token");
    reveal_strlit("authticket");
    reveal_strlit("auth_ticket");
    reveal_strlit("sessionticket");
    reveal_strlit("session_ticket");
    reveal_strlit("key");
    reveal_strlit("auth");
    reveal_strlit("ticket");
    lemma_pattern_split(la, c, lb, "password"@);
    lemma_pattern_split(la, c, lb, "passwd"@);
    lemma_pattern_split(la, c, lb, "token"@);
    lemma_pattern_split(la, c, lb, "secret"@);
    lemma_pattern_split(la, c, lb, "credential"@);
    lemma_pattern_split(la, c, lb, "credentials"@);
    lemma_pattern_split(la, c, lb, "cookie"@);
    lemma_pattern_split(la, c, lb, "authorization"@);
    lemma_pattern_split(la, c, lb, "refresh_token"@);
    lemma_pattern_split(la, c, lb, "access_token"@);
    lemma_pattern_split(la, c, lb, "authticket"@);
    lemma_pattern_split(la, c, lb, "auth_ticket"@);
    lemma_pattern_split(la, c, lb, "sessionticket"@);
    lemma_pattern_split(la, c, lb, "session_ticket"@);
    lemma_pattern_split(la, c, lb, "key"@);
    lemma_pattern_split(la, c, lb, "auth"@);
    lemma_pattern_split(la, c, lb, "ticket"@);
}

/// Leading dashes of `a + b` are those of `a` when `b` does not start with one.
proof fn lemma_trim_dash_start_append(a: Seq<char>, b: Seq<char>)
    requires
        b.len() > 0,
        b[0] != '-',
    ensures
        trim_dash_start(a + b) == trim_dash_start(a) + b,
    decreases a.len(),
{
    if a.len() > 0 && a[0] == '-' {
        assert((a + b).drop_first() =~= a.drop_first() + b);
        lemma_trim_dash_start_append(a.drop_first(), b);
    } else if a.len() == 0 {
        assert(a + b =~= b);
        assert(trim_dash_start(a) + b =~= b);
    }
}

/// The marker passes through a second redaction unchanged and hides nothing.
proof fn lemma_marker_word()
    ensures
        redact_word_spec(redacted_marker()) == (redacted_marker(), false),
{
    let m = redacted_marker();
    crate::text::lemma_index_of(m, '=');
    lemma_trim_dash_start_at(m, 0);
}

/// Redacting a word that redaction already produced changes nothing, and a
/// word that hid nothing the first time still hides nothing.
proof fn lemma_redact_word_stable(w: Seq<char>)
    ensures
        redact_word_spec(redact_word_spec(w).0).0 == redact_word_spec(w).0,
        !redact_word_spec(w).1 ==> !redact_word_spec(redact_word_spec(w).0).1,
{
    lemma_redacted_literals();
    lemma_marker_not_sensitive();
    let red = redacted_marker();
    let eq = index_of(w, '=');
    let name = w.subrange(0, eq);
    let value = w.subrange(eq + 1, w.len() as int);
    crate::text::lemma_index_of(w, '=');
    let o = redact_word_spec(w).0;
    if eq >= 0 && (sensitive_name(trim_dash_start(name)) || sensitive_name(value)) {
        assert(o == name + seq!['='] + red);
        let zr = seq!['='] + red;
        assert(o =~= name + zr);
        assert forall|k: int| 0 <= k < eq implies o[k] != '=' by {
            assert(o[k] == w[k]);
        }
        assert(o[eq] == '=');
        crate::text::lemma_index_of_at(o, '=', eq);
        assert(o.subrange(0, eq) =~= name);
        assert(o.subrange(eq + 1, o.len() as int) =~= red);
        if !sensitive_name(trim_dash_start(name)) {
            assert(o.last() == '>');
            lemma_trim_dash_start_append(name, zr);
            lemma_sensitive_split(trim_dash_start(name), '=', red);
            assert(trim_dash_start(o) =~= trim_dash_start(name) + seq!['='] + red);
        }
    } else if w.len() > 0 && w.last() == ':' && sensitive_name(trim_dash_start(w.drop_last())) {
        let d = w.drop_last();
        let zr = seq![':'] + red;
        assert(o == d + zr);
        assert(o.last() == '>');
        let eq2 = index_of(o, '=');
        crate::text::lemma_index_of(o, '=');
        if eq >= 0 {
            assert(eq < d.len());
            assert forall|k: int| 0 <= k < eq implies o[k] != '=' by {
                assert(o[k] == w[k]);
            }
            assert(o[eq] == w[eq]);
            crate::text::lemma_index_of_at(o, '=', eq);
            assert(o.subrange(0, eq) =~= name);
            let v = w.subrange(eq + 1, d.len() as int);
            assert(value =~= v + seq![':'] + Seq::<char>::empty());
            assert(o.subrange(eq + 1, o.len() as int) =~= v + seq![':'] + red);
            lemma_sensitive_split(v, ':', Seq::<char>::empty());
            lemma_sensitive_split(v, ':', red);
        } else {
            assert forall|k: int| 0 <= k < o.len() implies o[k] != '=' by {
                if k < d.len() {
                    assert(o[k] == w[k]);
                } else {
                    assert(o[k] == zr[k - d.len()]);
                }
            }
            crate::text::lemma_index_of_at(o, '=', o.len() as int);
        }
    }
}

/// Redacting an already redacted word list changes nothing, whenever the
/// second pass hides the next word only if the first pass did.
proof fn lemma_redact_from_stable(words: Seq<Seq<char>>, first: bool, second: bool)
    requires
        !first ==> !second,
    ensures
        redact_from(redact_from(words, first), second) == redact_from(words, first),
    decreases words.len(),
{
    if words.len() > 0 {
        let rest = words.drop_first();
        let out = redact_from(words, first);
        if first {
            lemma_redacted_literals();
            lemma_marker_word();
            lemma_redact_from_stable(rest, false, false);
            assert(out[0] == redacted_marker());
            assert(out.drop_first() =~= redact_from(rest, false));
        } else {
            let (o, hides) = redact_word_spec(words[0]);
            lemma_redact_word_stable(words[0]);
            lemma_redact_from_stable(rest, hides, redact_word_spec(o).1);
            assert(out[0] == o);
            assert(out.drop_first() =~= redact_from(rest, hides));
        }
        assert(out.len() > 0);
    }
}

/// A word as whitespace splitting yields it: not empty, no whitespace.
pub open spec fn plain_word(w: Seq<char>) -> bool {
    w.len() > 0 && forall|k: int| 0 <= k < w.len() ==> !is_space(#[trigger] w[k])
}

proof fn lemma_words_from_word(w: Seq<char>, r: Seq<char>, cur: Seq<char>)
    requires
        forall|k: int| 0 <= k < w.len() ==> !is_space(#[trigger] w[k]),
    ensures
        words_from(w + r, cur) == words_from(r, cur + w),
    decreases w.len(),
{
    if w.len() == 0 {
        assert(w + r =~= r);
        assert(cur + w =~= cur);
    } else {
        assert((w + r)[0] == w[0]);
        assert((w + r).drop_first() =~= w.drop_first() + r);
        assert forall|k: int| 0 <= k < w.drop_first().len() implies !is_space(#[trigger] w.drop_first()[k]) by {
            assert(w.drop_first()[k] == w[k + 1]);
        }
        lemma_words_from_word(w.drop_first(), r, cur.push(w[0]));
        assert(cur.push(w[0]) + w.drop_first() =~= cur + w);
    }
}

proof fn lemma_words_from_joined(ws: Seq<Seq<char>>, r: Seq<char>)
    requires
        ws.len() >= 1,
        forall|i: int| 0 <= i < ws.len() ==> plain_word(#[trigger] ws[i]),
    ensures
        words_from(crate::text::joined(ws, " "@) + r, Seq::empty()) == ws.drop_last() + words_from(r, ws.last()),
    decreases ws.len(),
{
    reveal_strlit(" ");
    let j = crate::text::joined(ws, " "@);
    if ws.len() == 1 {
        assert(j == ws[0]);
        lemma_words_from_word(ws[0], r, Seq::empty());
        assert(Seq::<char>::empty() + ws[0] =~= ws[0]);
        assert(ws.drop_last() =~= Seq::<Seq<char>>::empty());
        assert(ws.drop_last() + words_from(r, ws.last()) =~= words_from(r, ws.last()));
    } else {
        let front = ws.drop_last();
        let last = ws.last();
        assert forall|i: int| 0 <= i < front.len() implies plain_word(#[trigger] front[i]) by {
            assert(front[i] == ws[i]);
        }
        let tail = seq![' '] + last + r;
        assert(j + r =~= crate::text::joined(front, " "@) + tail);
        lemma_words_from_joined(front, tail);
        let after = last + r;
        assert(tail[0] == ' ');
        assert(tail.drop_first() =~= after);
        assert(plain_word(front.last()));
        assert(words_from(tail, front.last()) == seq![front.last()] + words_from(after, Seq::empty()));
        lemma_words_from_word(last, r, Seq::empty());
        assert(Seq::<char>::empty() + last =~= last);
        assert(front.drop_last() + (seq![front.last()] + words_from(r, last)) =~= front + words_from(r, last));
    }
}

/// Splitting words joined by single spaces gives the words back.
proof fn lemma_words_of_joined(ws: Seq<Seq<char>>)
    requires
        forall|i: int| 0 <= i < ws.len() ==> plain_word(#[trigger] ws[i]),
    ensures
        whitespace_words(crate::text::joined(ws, " "@)) == ws,
{
    if ws.len() == 0 {
        assert(whitespace_words(Seq::empty()) =~= Seq::<Seq<char>>::empty());
    } else {
        lemma_words_from_joined(ws, Seq::empty());
        assert(crate::text::joined(ws, " "@) + Seq::<char>::empty() =~= crate::text::joined(ws, " "@));
        assert(words_from(Seq::empty(), ws.last()) == seq![ws.last()]);
        assert(ws.drop_last() + seq![ws.last()] =~= ws);
    }
}

/// Every word whitespace splitting yields is a plain word.
proof fn lemma_words_from_plain(s: Seq<char>, cur: Seq<char>)
    requires
        forall|k: int| 0 <= k < cur.len() ==> !is_space(#[trigger] cur[k]),
    ensures
        forall|i: int| 0 <= i < words_from(s, cur).len() ==> plain_word(#[trigger] words_from(s, cur)[i]),
    decreases s.len(),
{
    if s.len() == 0 {
        if cur.len() > 0 {
            assert(plain_word(cur));
            assert(words_from(s, cur) == seq![cur]);
        }
    } else if is_space(s[0]) {
        lemma_words_from_plain(s.drop_first(), Seq::empty());
        let head: Seq<Seq<char>> = if cur.len() > 0 { seq![cur] } else { Seq::empty() };
        let rest = words_from(s.drop_first(), Seq::empty());
        assert(words_from(s, cur) == head + rest);
        assert forall|i: int| 0 <= i < (head + rest).len() implies plain_word(#[trigger] (head + rest)[i]) by {
            if i >= head.len() {
                assert((head + rest)[i] == rest[i - head.len()]);
            } else {
                assert(plain_word(cur));
            }
        }
    } else {
        assert forall|k: int| 0 <= k < cur.push(s[0]).len() implies !is_space(#[trigger] cur.push(s[0])[k]) by {
            if k < cur.len() {
                assert(cur.push(s[0])[k] == cur[k]);
            }
        }
        lemma_words_from_plain(s.drop_first(), cur.push(s[0]));
        assert(words_from(s, cur) == words_from(s.drop_first(), cur.push(s[0])));
    }
}

/// Redaction keeps every word plain.
proof fn lemma_redact_from_plain(words: Seq<Seq<char>>, pending: bool)
    requires
        forall|i: int| 0 <= i < words.len() ==> plain_word(#[trigger] words[i]),
    ensures
        forall|i: int| 0 <= i < redact_from(words, pending).len() ==> plain_word(#[trigger] redact_from(words, pending)[i]),
    decreases words.len(),
{
    if words.len() > 0 {
        let rest = words.drop_first();
        assert forall|i: int| 0 <= i < rest.len() implies plain_word(#[trigger] rest[i]) by {
            assert(rest[i] == words[i + 1]);
        }
        lemma_redacted_literals();
        let red = redacted_marker();
        assert(plain_word(red));
        let w = words[0];
        let (o, hides) = redact_word_spec(w);
        let eq = index_of(w, '=');
        crate::text::lemma_index_of(w, '=');
        assert(plain_word(o)) by {
            if eq >= 0 && (sensitive_name(trim_dash_start(w.subrange(0, eq))) || sensitive_name(w.subrange(eq + 1, w.len() as int))) {
                let zr = seq!['='] + red;
                assert(o =~= w.subrange(0, eq) + zr);
                assert forall|k: int| 0 <= k < o.len() implies !is_space(#[trigger] o[k]) by {
                    if k < eq {
                        assert(o[k] == w[k]);
                    } else {
                        assert(o[k] == zr[k - eq]);
                    }
                }
            } else if w.len() > 0 && w.last() == ':' && sensitive_name(trim_dash_start(w.drop_last())) {
                let zr = seq![':'] + red;
                let d = w.drop_last();
                assert(o =~= d + zr);
                assert forall|k: int| 0 <= k < o.len() implies !is_space(#[trigger] o[k]) by {
                    if k < d.len() {
                        assert(o[k] == w[k]);
                    } else {
                        assert(o[k] == zr[k - d.len()]);
                    }
                }
            }
        };
        lemma_redact_from_plain(rest, false);
        lemma_redact_from_plain(rest, hides);
        let out = redact_from(words, pending);
        let head = if pending { red } else { o };
        let tail = if pending { redact_from(rest, false) } else { redact_from(rest, hides) };
        assert(out =~= seq![head] + tail);
        assert forall|i: int| 0 <= i < out.len() implies plain_word(#[trigger] out[i]) by {
            if i > 0 {
                assert(out[i] == tail[i - 1]);
            }
        }
    }
}

/// Redacting text that was already redacted changes nothing: recorded text
/// reads the same however often it passes through redaction.
pub proof fn law_redact_text_idempotent(text: Seq<char>)
    ensures
        redact_text_spec(redact_text_spec(text)) == redact_text_spec(text),
{
    let words = whitespace_words(text);
    lemma_words_from_plain(text, Seq::empty());
    let once = redact_from(words, false);
    lemma_redact_from_plain(words, false);
    lemma_words_of_joined(once);
    lemma_redact_from_stable(words, false, false);
}

} // verus!
