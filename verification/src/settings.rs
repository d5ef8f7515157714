use vstd::prelude::*;

use crate::text::{decimal_int, decimal_nat, digit_char, i64_to_string, push_str, str_eq, trim, trim_seq};

verus! {

/// What the settings page shows.
#[derive(Debug)]
pub struct SettingsOverview {
    pub school_name: Option<String>,
    pub head_teacher: Option<String>,
    pub default_semester: Option<String>,
    pub default_backup_dir: String,
    pub reminder_threshold: i64,
    pub export_preference: String,
    pub app_version: String,
    pub database_version: i64,
    pub data_dir: String,
    pub database_path: String,
    pub recent_backups: Vec<BackupFileInfo>,
}

/// A backup file found in the backup directory.
#[derive(Debug)]
pub struct BackupFileInfo {
    pub file_name: String,
    pub file_path: String,
    pub size_bytes: u64,
    pub modified_at: String,
}

/// The settings kept in the configuration table.
#[derive(Clone, Copy, Debug, PartialEq, Eq, Structural)]
pub enum ConfigKey {
    SchoolName,
    HeadTeacher,
    Semester,
    BackupDir,
    ReminderThreshold,
    ExportPreference,
}

impl ConfigKey {
    /// The key under which the setting is stored.
    pub fn key(&self) -> (r: &'static str)
        ensures
            r@ == config_key_text(*self),
    {
        match self {
            ConfigKey::SchoolName => "default_school_name",
            ConfigKey::HeadTeacher => "default_head_teacher",
            ConfigKey::Semester => "default_semester",
            ConfigKey::BackupDir => "default_backup_dir",
            ConfigKey::ReminderThreshold => "reminder_threshold",
            ConfigKey::ExportPreference => "export_preference",
        }
    }
}

/// The key under which a setting is stored.
pub open spec fn config_key_text(k: ConfigKey) -> Seq<char> {
    match k {
        ConfigKey::SchoolName => "default_school_name"@,
        ConfigKey::HeadTeacher => "default_head_teacher"@,
        ConfigKey::Semester => "default_semester"@,
        ConfigKey::BackupDir => "default_backup_dir"@,
        ConfigKey::ReminderThreshold => "reminder_threshold"@,
        ConfigKey::ExportPreference => "export_preference"@,
    }
}

// ---------------------------------------------------------------------------
// Reading an integer as `str::parse::<i64>` does.
// ---------------------------------------------------------------------------

/// An ASCII decimal digit.
pub open spec fn is_digit(c: char) -> bool {
    '0' <= c && c <= '9'
}

/// Whether every character is a decimal digit.
pub open spec fn all_digits(s: Seq<char>) -> bool {
    forall|i: int| 0 <= i < s.len() ==> is_digit(#[trigger] s[i])
}

/// The value of a string of decimal digits.
pub open spec fn digits_value(s: Seq<char>) -> int
    decreases s.len(),
{
    if s.len() == 0 {
        0
    } else {
        digits_value(s.drop_last()) * 10 + (s.last() as int - 48)
    }
}

/// The integer a text denotes: an optional `+` or `-` followed by at least
/// one decimal digit and nothing else.
pub open spec fn integer_value(s: Seq<char>) -> Option<int> {
    if s.len() > 0 && (s[0] == '-' || s[0] == '+') {
        let d = s.drop_first();
        if d.len() > 0 && all_digits(d) {
            if s[0] == '-' {
                Some(-digits_value(d))
            } else {
                Some(digits_value(d))
            }
        } else {
            None
        }
    } else if s.len() > 0 && all_digits(s) {
        Some(digits_value(s))
    } else {
        None
    }
}

/// What `str::parse::<i64>` gives: the integer the text denotes where it
/// fits in an `i64`, otherwise nothing.
pub open spec fn parsed_i64(s: Seq<char>) -> Option<i64> {
    match integer_value(s) {
        Some(v) => if i64::MIN <= v <= i64::MAX {
            Some(v as i64)
        } else {
            None
        },
        None => None,
    }
}

proof fn lemma_digits_value_grows(s: Seq<char>, k: int)
    requires
        all_digits(s),
        0 <= k <= s.len(),
    ensures
        0 <= digits_value(s.take(k)) <= digits_value(s),
    decreases s.len() - k,
{
    if k < s.len() {
        let t = s.take(k + 1);
        assert(t.drop_last() =~= s.take(k));
        assert(is_digit(s[k]));
        lemma_digits_value_grows(s, k + 1);
    } else {
        assert(s.take(k) =~= s);
        lemma_digits_value_nonneg(s);
    }
}

proof fn lemma_digits_value_nonneg(s: Seq<char>)
    requires
        all_digits(s),
    ensures
        digits_value(s) >= 0,
    decreases s.len(),
{
    if s.len() > 0 {
        assert(is_digit(s.last()));
        assert(all_digits(s.drop_last()));
        lemma_digits_value_nonneg(s.drop_last());
    }
}

/// The value of the decimal digits of `s` from position `from`, where that
/// value does not exceed `2^63`; `None` where a character is not a digit or
/// the value exceeds it.
fn digits_from(s: &str, from: usize) -> (r: Option<i128>)
    requires
        from <= s@.len(),
    ensures
        ({
            let d = s@.subrange(from as int, s@.len() as int);
            match r {
                Some(v) => all_digits(d) && v == digits_value(d) && 0 <= v <= 0x8000_0000_0000_0000,
                None => !all_digits(d) || digits_value(d) > 0x8000_0000_0000_0000,
            }
        }),
{
    let n = s.unicode_len();
    let ghost d = s@.subrange(from as int, n as int);
    let mut acc: i128 = 0;
    let mut i: usize = from;
    proof {
        assert(d.take(0) =~= Seq::<char>::empty());
    }
    while i < n
        invariant
            n == s@.len(),
            from <= i <= n,
            d == s@.subrange(from as int, n as int),
            all_digits(d.take(i - from)),
            acc == digits_value(d.take(i - from)),
            0 <= acc <= 0x8000_0000_0000_0000,
        decreases n - i,
    {
        let c = s.get_char(i);
        proof {
            assert(d[i - from] == c);
        }
        if !('0' <= c && c <= '9') {
            proof {
                assert(!is_digit(d[i - from]));
            }
            return None;
        }
        let digit: i128 = (c as u32 as i128) - 48;
        proof {
            let t = d.take(i - from + 1);
            assert(t.drop_last() =~= d.take(i - from));
            assert(t.last() == c);
        }
        acc = acc * 10 + digit;
        i = i + 1;
        if acc > 0x8000_0000_0000_0000 {
            proof {
                if all_digits(d) {
                    lemma_digits_value_grows(d, (i - from) as int);
                }
            }
            return None;
        }
    }
    proof {
        assert(d.take(n - from) =~= d);
    }
    Some(acc)
}

/// Reads an integer as `str::parse::<i64>` does.
pub fn parse_i64(s: &str) -> (r: Option<i64>)
    ensures
        r == parsed_i64(s@),
{
    let n = s.unicode_len();
    if n == 0 {
        return None;
    }
    let first = s.get_char(0);
    if first == '-' || first == '+' {
        if n == 1 {
            return None;
        }
        proof {
            assert(s@.subrange(1, n as int) =~= s@.drop_first());
        }
        match digits_from(s, 1) {
            None => None,
            Some(v) => {
                if first == '-' {
                    let m: i128 = -v;
                    Some(m as i64)
                } else if v <= 0x7fff_ffff_ffff_ffff {
                    Some(v as i64)
                } else {
                    None
                }
            },
        }
    } else {
        proof {
            assert(s@.subrange(0, n as int) =~= s@);
        }
        match digits_from(s, 0) {
            None => None,
            Some(v) => {
                if v <= 0x7fff_ffff_ffff_ffff {
                    Some(v as i64)
                } else {
                    None
                }
            },
        }
    }
}

proof fn lemma_decimal_nat_reads_back(m: nat)
    ensures
        decimal_nat(m).len() > 0,
        all_digits(decimal_nat(m)),
        digits_value(decimal_nat(m)) == m,
    decreases m,
{
    if m >= 10 {
        lemma_decimal_nat_reads_back(m / 10);
        let s = decimal_nat(m);
        let q = decimal_nat(m / 10);
        assert(s == q.push(digit_char((m % 10) as int)));
        assert(s.drop_last() =~= q);
        assert forall|i: int| 0 <= i < s.len() implies is_digit(#[trigger] s[i]) by {
            if i < q.len() {
                assert(s[i] == q[i]);
            }
        }
        assert((m / 10) * 10 + m % 10 == m);
        let d = (m % 10) as int;
        assert(digit_char(d) as int == 48 + d);
        assert(s.last() == digit_char(d));
        assert(digits_value(s) == digits_value(s.drop_last()) * 10 + (s.last() as int - 48));
        assert(digits_value(s.drop_last()) == m / 10);
        assert(s.last() as int - 48 == d);
    } else {
        let s = decimal_nat(m);
        assert(digit_char(m as int) as int == 48 + m);
        assert(s.drop_last() =~= Seq::<char>::empty());
        assert(is_digit(s[0]));
        assert(digits_value(s) == digits_value(s.drop_last()) * 10 + (s.last() as int - 48));
        assert(digits_value(s.drop_last()) == 0);
    }
}

/// Reading back the decimal text of an integer gives the integer.
pub proof fn law_integer_text_round_trip(n: i64)
    ensures
        parsed_i64(decimal_int(n as int)) == Some(n),
{
    if n < 0 {
        let m = (-n) as nat;
        lemma_decimal_nat_reads_back(m);
        let s = decimal_int(n as int);
        assert(s.drop_first() =~= decimal_nat(m));
    } else {
        lemma_decimal_nat_reads_back(n as nat);
        let s = decimal_nat(n as nat);
        assert(s[0] != '-' && s[0] != '+') by {
            assert(is_digit(s[0]));
        }
    }
}

// ---------------------------------------------------------------------------
// Preferences.
// ---------------------------------------------------------------------------

/// A reminder threshold kept within 1..=30 days.
pub open spec fn clamped_threshold(v: i64) -> i64 {
    if v < 1 {
        1
    } else if v > 30 {
        30
    } else {
        v
    }
}

/// The reminder threshold to store for a requested one (`i64::clamp(1, 30)`).
pub fn clamp_threshold(v: i64) -> (r: i64)
    ensures
        r == clamped_threshold(v),
{
    if v < 1 {
        1
    } else if v > 30 {
        30
    } else {
        v
    }
}

/// The stored text of a requested reminder threshold.
pub fn threshold_text(v: i64) -> (r: String)
    ensures
        r@ == decimal_int(clamped_threshold(v) as int),
{
    i64_to_string(clamp_threshold(v))
}

/// The reminder threshold a stored value gives: the integer it denotes, or
/// 3 where there is none or it does not read as an integer.
pub open spec fn threshold_of(stored: Option<Seq<char>>) -> i64 {
    match stored {
        Some(s) => match parsed_i64(s) {
            Some(v) => v,
            None => 3,
        },
        None => 3,
    }
}

/// The reminder threshold that a stored value gives.
pub fn stored_threshold(stored: Option<&str>) -> (r: i64)
    ensures
        r == threshold_of(match stored {
            Some(s) => Some(s@),
            None => None,
        }),
{
    match stored {
        Some(s) => match parse_i64(s) {
            Some(v) => v,
            None => 3,
        },
        None => 3,
    }
}

/// The export formats a teacher may prefer.
pub open spec fn valid_export_preference(v: Seq<char>) -> bool {
    v == "xlsx"@ || v == "pdf"@ || v == "both"@
}

/// Checks a requested export preference.
pub fn check_export_preference(v: &str) -> (r: Result<(), String>)
    ensures
        r is Ok <==> valid_export_preference(v@),
        r matches Err(e) ==> e@ == "导出偏好仅支持 xlsx、pdf 或 both"@,
{
    if str_eq(v, "xlsx") || str_eq(v, "pdf") || str_eq(v, "both") {
        Ok(())
    } else {
        let mut m = String::new();
        push_str(&mut m, "导出偏好仅支持 xlsx、pdf 或 both");
        proof {
            assert(m@ =~= "导出偏好仅支持 xlsx、pdf 或 both"@);
        }
        Err(m)
    }
}

/// The export preference a stored value gives: the value, or `xlsx`.
pub fn stored_export_preference(stored: Option<String>) -> (r: String)
    ensures
        r@ == match stored {
            Some(s) => s@,
            None => "xlsx"@,
        },
{
    match stored {
        Some(s) => s,
        None => {
            let mut m = String::new();
            push_str(&mut m, "xlsx");
            proof {
                assert(m@ =~= "xlsx"@);
            }
            m
        },
    }
}

/// The text stored for a school name, head teacher or semester: the value
/// without surrounding white space.
pub fn setting_text(value: &str) -> (r: String)
    ensures
        r@ == trim_seq(value@),
{
    trim(value)
}

/// The configured backup directory, where one is stored that is not blank;
/// otherwise the default one is used.
pub fn configured_backup_dir(stored: Option<String>) -> (r: Option<String>)
    ensures
        match stored {
            Some(p) => if trim_seq(p@).len() > 0 {
                r == Some(p)
            } else {
                r is None
            },
            None => r is None,
        },
{
    match stored {
        Some(p) => {
            let t = trim(p.as_str());
            if t.as_str().is_empty() {
                None
            } else {
                Some(p)
            }
        },
        None => None,
    }
}

/// The backup directory to store for a requested one: the request without
/// surrounding white space, or `None` (the default directory) where that is
/// empty.
pub fn requested_backup_dir(value: &str) -> (r: Option<String>)
    ensures
        match r {
            Some(p) => p@ == trim_seq(value@) && p@.len() > 0,
            None => trim_seq(value@).len() == 0,
        },
{
    let t = trim(value);
    if t.as_str().is_empty() {
        None
    } else {
        Some(t)
    }
}

/// A file name whose extension (the part after its last dot, where that dot
/// is not its first character) is `bak`.
pub open spec fn has_bak_extension(name: Seq<char>) -> bool {
    name.len() > 4 && name.subrange(name.len() - 4, name.len() as int) == ".bak"@
}

/// Whether a file name has the extension `bak`, as `Path::extension` finds it.
pub fn is_backup_file_name(name: &str) -> (r: bool)
    ensures
        r == has_bak_extension(name@),
{
    let n = name.unicode_len();
    if n <= 4 {
        return false;
    }
    let tail = name.substring_char(n - 4, n);
    str_eq(tail, ".bak")
}

/// A stored reminder threshold reads back as the requested one kept within
/// 1..=30.
pub proof fn law_threshold_round_trip(v: i64)
    ensures
        threshold_of(Some(decimal_int(clamped_threshold(v) as int))) == clamped_threshold(v),
        1 <= threshold_of(Some(decimal_int(clamped_threshold(v) as int))) <= 30,
{
    law_integer_text_round_trip(clamped_threshold(v));
}

// ---------------------------------------------------------------------------
// The most recent backups.
// ---------------------------------------------------------------------------

/// Lexicographic order of texts, character by character, a proper prefix
/// coming first (the order of `String`'s `cmp`).
pub open spec fn text_less(a: Seq<char>, b: Seq<char>) -> bool
    decreases a.len(),
{
    if b.len() == 0 {
        false
    } else if a.len() == 0 {
        true
    } else if a[0] != b[0] {
        a[0] < b[0]
    } else {
        text_less(a.drop_first(), b.drop_first())
    }
}

proof fn lemma_text_less_asymmetric(a: Seq<char>, b: Seq<char>)
    ensures
        !(text_less(a, b) && text_less(b, a)),
    decreases a.len(),
{
    if a.len() > 0 && b.len() > 0 && a[0] == b[0] {
        lemma_text_less_asymmetric(a.drop_first(), b.drop_first());
    }
}

proof fn lemma_text_less_transitive(a: Seq<char>, b: Seq<char>, c: Seq<char>)
    requires
        text_less(a, b),
        text_less(b, c),
    ensures
        text_less(a, c),
    decreases a.len(),
{
    if a.len() > 0 && b.len() > 0 && c.len() > 0 && a[0] == b[0] && b[0] == c[0] {
        lemma_text_less_transitive(a.drop_first(), b.drop_first(), c.drop_first());
    }
}

proof fn lemma_text_less_total(a: Seq<char>, b: Seq<char>)
    ensures
        a == b || text_less(a, b) || text_less(b, a),
    decreases a.len(),
{
    if a.len() > 0 && b.len() > 0 && a[0] == b[0] {
        lemma_text_less_total(a.drop_first(), b.drop_first());
        if a.drop_first() == b.drop_first() {
            assert(a =~= seq![a[0]] + a.drop_first());
            assert(b =~= seq![b[0]] + b.drop_first());
        }
    } else if a.len() == 0 && b.len() == 0 {
        assert(a =~= b);
    }
}

/// Whether text `a` comes before text `b`.
pub fn text_lt(a: &str, b: &str) -> (r: bool)
    ensures
        r == text_less(a@, b@),
{
    let n = a.unicode_len();
    let m = b.unicode_len();
    let mut i: usize = 0;
    proof {
        assert(a@.skip(0) =~= a@);
        assert(b@.skip(0) =~= b@);
    }
    while i < n && i < m
        invariant
            n == a@.len(),
            m == b@.len(),
            i <= n,
            i <= m,
            text_less(a@, b@) == text_less(a@.skip(i as int), b@.skip(i as int)),
        decreases n - i,
    {
        let x = a.get_char(i);
        let y = b.get_char(i);
        proof {
            assert(a@.skip(i as int)[0] == x);
            assert(b@.skip(i as int)[0] == y);
        }
        if x != y {
            return x < y;
        }
        proof {
            assert(a@.skip(i as int).drop_first() =~= a@.skip(i + 1));
            assert(b@.skip(i as int).drop_first() =~= b@.skip(i + 1));
        }
        i = i + 1;
    }
    i == n && i < m
}

/// The entries whose file name has the extension `bak`, in their order.
pub open spec fn bak_entries(entries: Seq<BackupFileInfo>) -> Seq<BackupFileInfo>
    decreases entries.len(),
{
    if entries.len() == 0 {
        Seq::empty()
    } else {
        let init = bak_entries(entries.drop_last());
        if has_bak_extension(entries.last().file_name@) {
            init.push(entries.last())
        } else {
            init
        }
    }
}

/// Newest first: no entry was modified before one that follows it.
pub open spec fn newest_first(s: Seq<BackupFileInfo>) -> bool {
    forall|i: int, j: int|
        0 <= i < j < s.len() ==> !text_less(#[trigger] s[i].modified_at@, #[trigger] s[j].modified_at@)
}

/// The number of backups listed: at most ten.
pub open spec fn listed_count(n: nat) -> nat {
    if n < 10 {
        n
    } else {
        10
    }
}

/// Lists the most recent backups among the files of the backup directory:
/// the files with the extension `bak`, newest first by modification time,
/// at most ten.
pub fn recent_backups(entries: Vec<BackupFileInfo>) -> (r: Vec<BackupFileInfo>)
    ensures
        r@.len() == listed_count(bak_entries(entries@).len()),
        exists|all: Seq<BackupFileInfo>|
            #![trigger all.to_multiset()]
            all.to_multiset() == bak_entries(entries@).to_multiset() && newest_first(all) && r@ == all.take(
                r@.len() as int,
            ),
{
    broadcast use {vstd::seq_lib::to_multiset_insert, vstd::seq_lib::to_multiset_build};

    let ghost input = entries@;
    let mut rest = entries;
    let mut kept: Vec<BackupFileInfo> = Vec::new();
    let mut sorted: Vec<BackupFileInfo> = Vec::new();
    let ghost mut taken: Seq<BackupFileInfo> = Seq::empty();
    let n = rest.len();
    let mut i: usize = 0;
    proof {
        assert(input.take(0) =~= Seq::<BackupFileInfo>::empty());
        assert(rest@.subrange(0, n as int) =~= input);
    }
    while i < n
        invariant
            n == input.len(),
            i <= n,
            rest@ == input.subrange(i as int, n as int),
            bak_entries(input.take(i as int)).to_multiset() == sorted@.to_multiset(),
            bak_entries(input.take(i as int)).len() == sorted@.len(),
            newest_first(sorted@),
        decreases n - i,
    {
        let e = rest.remove(0);
        proof {
            assert(e == input[i as int]);
            assert(input.take(i + 1).drop_last() =~= input.take(i as int));
            assert(input.take(i + 1).last() == e);
            assert(rest@ =~= input.subrange(i + 1, n as int));
        }
        if is_backup_file_name(e.file_name.as_str()) {
            let mut p: usize = 0;
            while p < sorted.len() && !text_lt(sorted[p].modified_at.as_str(), e.modified_at.as_str())
                invariant
                    p <= sorted.len(),
                    forall|k: int| 0 <= k < p ==> !text_less(#[trigger] sorted@[k].modified_at@, e.modified_at@),
                decreases sorted.len() - p,
            {
                p = p + 1;
            }
            let ghost before = sorted@;
            sorted.insert(p, e);
            proof {
                assert forall|a: int, b: int| 0 <= a < b < sorted@.len() implies !text_less(
                    #[trigger] sorted@[a].modified_at@,
                    #[trigger] sorted@[b].modified_at@,
                ) by {
                    let x = e.modified_at@;
                    if a < p && b == p {
                    } else if a == p && b > p {
                        let y = before[b - 1].modified_at@;
                        let z = before[p as int].modified_at@;
                        assert(text_less(z, x));
                        if p < b - 1 {
                            assert(!text_less(z, y));
                            lemma_text_less_total(z, y);
                            if text_less(x, y) {
                                if z == y {
                                    lemma_text_less_asymmetric(z, x);
                                } else {
                                    lemma_text_less_transitive(x, y, z);
                                    lemma_text_less_asymmetric(z, x);
                                }
                            }
                        } else {
                            lemma_text_less_asymmetric(z, x);
                        }
                    } else if a < p && b > p {
                        assert(sorted@[a] == before[a]);
                        assert(sorted@[b] == before[b - 1]);
                    } else if b < p {
                        assert(sorted@[a] == before[a]);
                        assert(sorted@[b] == before[b]);
                    } else {
                        assert(sorted@[a] == before[a - 1]);
                        assert(sorted@[b] == before[b - 1]);
                    }
                }
                assert(sorted@ =~= before.insert(p as int, e));
                vstd::seq_lib::to_multiset_insert(before, p as int, e);
                vstd::seq_lib::to_multiset_build(bak_entries(input.take(i as int)), e);
                assert(sorted@.to_multiset() == before.to_multiset().insert(e));
                assert(bak_entries(input.take(i + 1)) == bak_entries(input.take(i as int)).push(e));
            }
        } else {
            proof {
                assert(bak_entries(input.take(i + 1)) == bak_entries(input.take(i as int)));
            }
        }
        i = i + 1;
    }
    proof {
        assert(input.take(n as int) =~= input);
    }
    let ghost all = sorted@;
    if sorted.len() > 10 {
        sorted.truncate(10);
    }
    proof {
        assert(sorted@ =~= all.take(sorted@.len() as int));
    }
    sorted
}
// ---------------------------------------------------------------------------
// The application data directory and logging.
// ---------------------------------------------------------------------------

/// The directory name under which a former release kept its data, beside the
/// current data directory.
pub fn legacy_app_identifier() -> (r: &'static str)
    ensures
        r@ == "com.class-copilot.app"@,
{
    "com.class-copilot.app"
}

/// Whether the former data directory is to be copied into the current one:
/// it is another directory that exists, and the current one is missing or
/// has no entry (or cannot be listed).
pub fn legacy_migration_needed(legacy_is_current: bool, legacy_exists: bool, current_exists: bool, current_empty: bool) -> (r: bool)
    ensures
        r == (!legacy_is_current && legacy_exists && (!current_exists || current_empty)),
{
    if legacy_is_current || !legacy_exists {
        return false;
    }
    !current_exists || current_empty
}

/// The level of a message that the user interface asks to log.
#[derive(Clone, Copy, Debug, PartialEq, Eq, Structural)]
pub enum LogLevel {
    Error,
    Warn,
    Info,
    Debug,
}

/// The level named by the user interface; an unknown name logs as `Info`.
pub open spec fn log_level_of(name: Seq<char>) -> LogLevel {
    if name == "error"@ {
        LogLevel::Error
    } else if name == "warn"@ {
        LogLevel::Warn
    } else if name == "debug"@ {
        LogLevel::Debug
    } else {
        LogLevel::Info
    }
}

/// The level at which a message from the user interface is logged.
pub fn frontend_log_level(name: &str) -> (r: LogLevel)
    ensures
        r == log_level_of(name@),
{
    if str_eq(name, "error") {
        LogLevel::Error
    } else if str_eq(name, "warn") {
        LogLevel::Warn
    } else if str_eq(name, "debug") {
        LogLevel::Debug
    } else {
        LogLevel::Info
    }
}
// ---------------------------------------------------------------------------
// Import templates.
// ---------------------------------------------------------------------------

/// The spreadsheets a teacher can download to fill in and import.
#[derive(Clone, Copy, Debug, PartialEq, Eq, Structural)]
pub enum TemplateKind {
    Student,
    Score,
}

/// The template a name asks for: `student` or `score`.
pub fn template_kind(name: &str) -> (r: Result<TemplateKind, String>)
    ensures
        name@ == "student"@ ==> r == Ok::<TemplateKind, String>(TemplateKind::Student),
        name@ == "score"@ ==> r == Ok::<TemplateKind, String>(TemplateKind::Score),
        name@ != "student"@ && name@ != "score"@ ==> (r matches Err(e) && e@ == "不支持的模板类型"@),
{
    proof {
        reveal_strlit("student");
        reveal_strlit("score");
        assert("score"@.len() != "student"@.len());
    }
    if str_eq(name, "student") {
        Ok(TemplateKind::Student)
    } else if str_eq(name, "score") {
        Ok(TemplateKind::Score)
    } else {
        let mut m = String::new();
        push_str(&mut m, "不支持的模板类型");
        proof {
            assert(m@ =~= "不支持的模板类型"@);
        }
        Err(m)
    }
}

/// The column titles of a template, in the columns the import reads them.
pub open spec fn template_header_texts(kind: TemplateKind) -> Seq<Seq<char>> {
    match kind {
        TemplateKind::Student => seq!["学号"@, "姓名"@, "性别"@, "联系电话"@, "家长姓名"@, "家长电话"@, "小组"@],
        TemplateKind::Score => seq!["学号"@, "姓名"@, "成绩"@],
    }
}

/// The column titles of a template.
pub fn template_headers(kind: TemplateKind) -> (r: Vec<&'static str>)
    ensures
        r@.map_values(|s: &str| s@) == template_header_texts(kind),
{
    let v = match kind {
        TemplateKind::Student => vec!["学号", "姓名", "性别", "联系电话", "家长姓名", "家长电话", "小组"],
        TemplateKind::Score => vec!["学号", "姓名", "成绩"],
    };
    proof {
        assert(v@.map_values(|s: &str| s@) =~= template_header_texts(kind));
    }
    v
}
} // verus!
