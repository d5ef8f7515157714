use sha2::Digest;
use vstd::prelude::*;
use vstd::utf8::{encode_utf8, is_char_boundary};

use crate::tables::{get_required_tables, required_tables, table_name, Table};
use crate::text::{decimal_int, push_decimal_i64, join, push_char, push_str, str_eq, to_owned_string, trim, trim_seq, views, join_strings};

verus! {

/// Format version written into, and required of, a packaged backup's manifest.
pub open spec fn format_version() -> Seq<char> {
    "2.0.0"@
}

/// First bytes of a ZIP archive: `PK\x03\x04`.
pub open spec fn zip_magic() -> Seq<u8> {
    seq![0x50u8, 0x4bu8, 0x03u8, 0x04u8]
}

/// First bytes of an SQLite database file: `SQLite format 3\0`.
pub open spec fn sqlite_magic() -> Seq<u8> {
    seq![
        0x53u8, 0x51u8, 0x4cu8, 0x69u8, 0x74u8, 0x65u8, 0x20u8, 0x66u8,
        0x6fu8, 0x72u8, 0x6du8, 0x61u8, 0x74u8, 0x20u8, 0x33u8, 0x00u8,
    ]
}

/// Whether the bytes read from the head of a file mark a packaged (ZIP) backup:
/// exactly four bytes were read and they are the ZIP magic.
pub fn is_zip_header(head: &[u8]) -> (r: bool)
    ensures
        r == (head@ == zip_magic()),
{
    if head.len() != 4 {
        return false;
    }
    let r = head[0] == 0x50u8 && head[1] == 0x4bu8 && head[2] == 0x03u8 && head[3] == 0x04u8;
    proof {
        if r {
            assert(head@ =~= zip_magic());
        }
    }
    r
}

/// Whether a file's content starts with the SQLite header.
pub fn is_sqlite_header(data: &[u8]) -> (r: bool)
    ensures
        r == (data@.len() >= 16 && data@.take(16) == sqlite_magic()),
{
    if data.len() < 16 {
        return false;
    }
    let magic: [u8; 16] = [
        0x53u8, 0x51u8, 0x4cu8, 0x69u8, 0x74u8, 0x65u8, 0x20u8, 0x66u8,
        0x6fu8, 0x72u8, 0x6du8, 0x61u8, 0x74u8, 0x20u8, 0x33u8, 0x00u8,
    ];
    let mut i: usize = 0;
    while i < 16
        invariant
            data@.len() >= 16,
            magic@ == sqlite_magic(),
            i <= 16,
            forall|j: int| 0 <= j < i ==> data@[j] == sqlite_magic()[j],
        decreases 16 - i,
    {
        if data[i] != magic[i] {
            proof {
                assert(data@.take(16)[i as int] != sqlite_magic()[i as int]);
            }
            return false;
        }
        i = i + 1;
    }
    proof {
        assert(data@.take(16) =~= sqlite_magic());
    }
    true
}

/// Why a backup file or package is refused, or a restore fails.
#[derive(Debug)]
pub enum BackupError {
    /// The backup file does not exist.
    FileMissing,
    /// The backup file is empty.
    FileEmpty,
    /// The backup file is not an SQLite database.
    NotSqlite,
    /// The package manifest names another format version.
    UnsupportedFormat { version: String },
    /// The packaged database does not match the checksum of its manifest.
    PackageChecksumMismatch,
    /// A legacy backup has no `.sha256` file beside it.
    LegacyChecksumMissing,
    /// A legacy backup's `.sha256` file is empty.
    LegacyChecksumEmpty,
    /// A legacy backup does not match its `.sha256` file.
    LegacyChecksumMismatch { current: String, stored: String },
    /// The integrity check of the backup database did not answer `ok`.
    IntegrityFailed { report: String },
    /// The backup database lacks a required table.
    MissingTable { table: Table },
    /// A table shares no column between the current database and the backup.
    NoSharedColumns { table: Table },
    /// After importing, a table holds another number of rows than the backup.
    RowCountMismatch { table: Table, expected: i64, actual: i64 },
}

/// Checks the format version recorded in a package manifest.
pub fn check_manifest_format(version: &str) -> (r: Result<(), BackupError>)
    ensures
        r is Ok <==> version@ == format_version(),
        r matches Err(e) ==> e matches BackupError::UnsupportedFormat { version: v } && v@
            == version@,
{
    if str_eq(version, "2.0.0") {
        Ok(())
    } else {
        Err(BackupError::UnsupportedFormat { version: to_owned_string(version) })
    }
}

/// Checks that the checksum computed over an extracted database equals the one
/// recorded in its package manifest.
pub fn check_package_checksum(computed: &str, recorded: &str) -> (r: Result<(), BackupError>)
    ensures
        r is Ok <==> computed@ == recorded@,
        r matches Err(e) ==> e is PackageChecksumMismatch,
{
    if str_eq(computed, recorded) {
        Ok(())
    } else {
        Err(BackupError::PackageChecksumMismatch)
    }
}

/// Checks the content of a backup file before it is opened as a database.
pub fn check_backup_content(data: &[u8]) -> (r: Result<(), BackupError>)
    ensures
        data@.len() == 0 ==> r matches Err(BackupError::FileEmpty),
        data@.len() > 0 && !(data@.len() >= 16 && data@.take(16) == sqlite_magic()) ==> r matches Err(
            BackupError::NotSqlite,
        ),
        r is Ok <==> (data@.len() >= 16 && data@.take(16) == sqlite_magic()),
{
    if data.len() == 0 {
        return Err(BackupError::FileEmpty);
    }
    if !is_sqlite_header(data) {
        return Err(BackupError::NotSqlite);
    }
    Ok(())
}

/// Checks a legacy (unpackaged) backup against the content of its `.sha256`
/// file (`None` when that file does not exist) and the checksum just computed.
/// On success the computed checksum is handed back.
pub fn verify_legacy_checksum(stored_file: Option<&str>, current: &str) -> (r: Result<
    String,
    BackupError,
>)
    ensures
        stored_file is None ==> r matches Err(BackupError::LegacyChecksumMissing),
        stored_file is Some && trim_seq(stored_file.unwrap()@).len() == 0 ==> r matches Err(
            BackupError::LegacyChecksumEmpty,
        ),
        stored_file is Some && trim_seq(stored_file.unwrap()@).len() > 0 && trim_seq(
            stored_file.unwrap()@,
        ) != current@ ==> (r matches Err(BackupError::LegacyChecksumMismatch { current: c, stored: s })
            && c@ == current@ && s@ == trim_seq(stored_file.unwrap()@)),
        stored_file is Some && trim_seq(stored_file.unwrap()@).len() > 0 && trim_seq(
            stored_file.unwrap()@,
        ) == current@ ==> (r matches Ok(c) && c@ == current@),
{
    match stored_file {
        None => Err(BackupError::LegacyChecksumMissing),
        Some(f) => {
            let stored = trim(f);
            if stored.unicode_len() == 0 {
                return Err(BackupError::LegacyChecksumEmpty);
            }
            if !str_eq(stored.as_str(), current) {
                return Err(
                    BackupError::LegacyChecksumMismatch {
                        current: to_owned_string(current),
                        stored,
                    },
                );
            }
            Ok(to_owned_string(current))
        },
    }
}

/// Checks the answer of the database integrity check.
pub fn check_integrity_report(report: &str) -> (r: Result<(), BackupError>)
    ensures
        r is Ok <==> report@ == "ok"@,
        r matches Err(e) ==> e matches BackupError::IntegrityFailed { report: s } && s@ == report@,
{
    if str_eq(report, "ok") {
        Ok(())
    } else {
        Err(BackupError::IntegrityFailed { report: to_owned_string(report) })
    }
}

/// The first table of `tables` that `present` marks as absent, if any.
pub open spec fn first_missing(tables: Seq<Table>, present: Seq<bool>) -> Option<Table>
    decreases tables.len(),
{
    if tables.len() == 0 {
        None
    } else if present.len() > 0 && !present[0] {
        Some(tables[0])
    } else {
        first_missing(tables.drop_first(), present.drop_first())
    }
}

/// Checks that every table of `tables` is present in the backup; `present[i]`
/// says whether `tables[i]` was found. The first absent table is reported.
pub fn check_tables_present(tables: &Vec<Table>, present: &Vec<bool>) -> (r: Result<
    (),
    BackupError,
>)
    requires
        tables@.len() == present@.len(),
    ensures
        r is Ok <==> forall|i: int| 0 <= i < present@.len() ==> #[trigger] present@[i],
        r matches Err(e) ==> e matches BackupError::MissingTable { table: t } && first_missing(
            tables@,
            present@,
        ) == Some(t),
{
    let mut i: usize = 0;
    proof {
        assert(tables@.skip(0) =~= tables@);
        assert(present@.skip(0) =~= present@);
    }
    while i < tables.len()
        invariant
            tables@.len() == present@.len(),
            i <= tables@.len(),
            forall|j: int| 0 <= j < i ==> #[trigger] present@[j],
            first_missing(tables@, present@) == first_missing(
                tables@.skip(i as int),
                present@.skip(i as int),
            ),
        decreases tables.len() - i,
    {
        proof {
            assert(tables@.skip(i as int).drop_first() =~= tables@.skip(i + 1));
            assert(present@.skip(i as int).drop_first() =~= present@.skip(i + 1));
        }
        if !present[i] {
            return Err(BackupError::MissingTable { table: tables[i] });
        }
        i = i + 1;
    }
    Ok(())
}

/// `"name"`: an identifier quoted for SQL.
pub open spec fn quoted(name: Seq<char>) -> Seq<char> {
    seq!['"'] + name + seq!['"']
}

/// The quoted names of columns.
pub open spec fn quoted_all(cols: Seq<Seq<char>>) -> Seq<Seq<char>> {
    cols.map_values(|c: Seq<char>| quoted(c))
}

/// Quotes an identifier for SQL.
pub fn quote_ident(name: &str) -> (r: String)
    ensures
        r@ == quoted(name@),
{
    let mut r = String::new();
    push_char(&mut r, '"');
    push_str(&mut r, name);
    push_char(&mut r, '"');
    proof {
        assert(r@ =~= quoted(name@));
    }
    r
}

/// The columns of the current table that the backup table also has, in the
/// current table's order.
pub open spec fn shared(main: Seq<Seq<char>>, backup: Seq<Seq<char>>) -> Seq<Seq<char>> {
    main.filter(|c: Seq<char>| backup.contains(c))
}

fn contains_string(v: &Vec<String>, s: &String) -> (r: bool)
    ensures
        r == views(v@).contains(s@),
{
    let mut i: usize = 0;
    while i < v.len()
        invariant
            i <= v.len(),
            forall|j: int| 0 <= j < i ==> v@[j]@ != s@,
        decreases v.len() - i,
    {
        if str_eq(v[i].as_str(), s.as_str()) {
            proof {
                assert(views(v@)[i as int] == s@);
            }
            return true;
        }
        i = i + 1;
    }
    proof {
        if views(v@).contains(s@) {
            let k = choose|k: int| 0 <= k < views(v@).len() && views(v@)[k] == s@;
            assert(v@[k]@ == s@);
        }
    }
    false
}

/// The columns that a restore copies: those of the current table (`main`) that
/// the backup table (`backup`) has too, in the current table's order.
pub fn shared_columns(main: &Vec<String>, backup: &Vec<String>) -> (r: Vec<String>)
    ensures
        views(r@) == shared(views(main@), views(backup@)),
{
    let mut r: Vec<String> = Vec::new();
    let mut i: usize = 0;
    while i < main.len()
        invariant
            i <= main.len(),
            views(r@) == shared(views(main@.take(i as int)), views(backup@)),
        decreases main.len() - i,
    {
        let keep = contains_string(backup, &main[i]);
        proof {
            let pred = |c: Seq<char>| views(backup@).contains(c);
            let pre = views(main@.take(i + 1));
            assert(pre.drop_last() =~= views(main@.take(i as int)));
            assert(pre.last() == main@[i as int]@);
            reveal_with_fuel(Seq::filter, 1);
            assert(pre.filter(pred) == if pred(pre.last()) {
                pre.drop_last().filter(pred).push(pre.last())
            } else {
                pre.drop_last().filter(pred)
            });
        }
        if keep {
            let c = main[i].clone();
            r.push(c);
            proof {
                assert(views(r@) =~= views(r@.drop_last()).push(main@[i as int]@));
            }
        }
        i = i + 1;
    }
    proof {
        assert(main@.take(main.len() as int) =~= main@);
    }
    r
}

/// The statement that copies the shared columns of a table from the attached
/// backup into the current database.
pub open spec fn import_sql(table: Seq<char>, cols: Seq<Seq<char>>) -> Seq<char> {
    let list = join(quoted_all(cols), ", "@);
    "INSERT INTO main."@ + quoted(table) + " ("@ + list + ") SELECT "@ + list
        + " FROM backup_db."@ + quoted(table)
}

/// Joins quoted column names with `, `.
pub fn column_list(cols: &Vec<String>) -> (r: String)
    ensures
        r@ == join(quoted_all(views(cols@)), ", "@),
{
    let mut q: Vec<String> = Vec::new();
    let mut i: usize = 0;
    while i < cols.len()
        invariant
            i <= cols.len(),
            q@.len() == i,
            views(q@) == quoted_all(views(cols@.take(i as int))),
        decreases cols.len() - i,
    {
        let s = quote_ident(cols[i].as_str());
        let ghost prev = q@;
        q.push(s);
        proof {
            assert forall|j: int| 0 <= j < i + 1 implies #[trigger] views(q@)[j] == quoted_all(
                views(cols@.take(i + 1)),
            )[j] by {
                if j < i {
                    assert(q@[j] == prev[j]);
                    assert(views(q@)[j] == views(prev)[j]);
                    assert(views(prev)[j] == quoted_all(views(cols@.take(i as int)))[j]);
                }
            }
            assert(views(q@) =~= quoted_all(views(cols@.take(i + 1))));
        }
        i = i + 1;
    }
    proof {
        assert(cols@.take(cols.len() as int) =~= cols@);
    }
    join_strings(&q, ", ")
}

/// The statement that restores one table, or the error when the current and the
/// backup table share no column.
pub fn import_table_sql(table: Table, main_columns: &Vec<String>, backup_columns: &Vec<String>) -> (r: Result<String, BackupError>)
    ensures
        shared(views(main_columns@), views(backup_columns@)).len() == 0 ==> (r matches Err(
            BackupError::NoSharedColumns { table: t },
        ) && t == table),
        shared(views(main_columns@), views(backup_columns@)).len() > 0 ==> (r matches Ok(s) && s@
            == import_sql(table_name(table), shared(views(main_columns@), views(backup_columns@)))),
{
    let cols = shared_columns(main_columns, backup_columns);
    if cols.len() == 0 {
        return Err(BackupError::NoSharedColumns { table });
    }
    let list = column_list(&cols);
    let name = quote_ident(table.name());
    let mut r = String::new();
    push_str(&mut r, "INSERT INTO main.");
    push_str(&mut r, name.as_str());
    push_str(&mut r, " (");
    push_str(&mut r, list.as_str());
    push_str(&mut r, ") SELECT ");
    push_str(&mut r, list.as_str());
    push_str(&mut r, " FROM backup_db.");
    push_str(&mut r, name.as_str());
    proof {
        assert(r@ =~= import_sql(table_name(table), views(cols@)));
    }
    Ok(r)
}

/// Compares the row counts after importing with the counts that the backup
/// held; `expected[i]` and `actual[i]` belong to `tables[i]`. The first table
/// whose count differs is reported.
pub fn check_row_counts(tables: &Vec<Table>, expected: &Vec<i64>, actual: &Vec<i64>) -> (r: Result<
    (),
    BackupError,
>)
    requires
        tables@.len() == expected@.len(),
        tables@.len() == actual@.len(),
    ensures
        r is Ok <==> expected@ == actual@,
        r matches Err(e) ==> exists|k: int|
            0 <= k < tables@.len() && expected@[k] != actual@[k] && (forall|j: int|
                0 <= j < k ==> expected@[j] == actual@[j]) && e == (BackupError::RowCountMismatch {
                table: tables@[k],
                expected: expected@[k],
                actual: actual@[k],
            }),
{
    let mut i: usize = 0;
    while i < tables.len()
        invariant
            tables@.len() == expected@.len(),
            tables@.len() == actual@.len(),
            i <= tables@.len(),
            forall|j: int| 0 <= j < i ==> expected@[j] == actual@[j],
        decreases tables.len() - i,
    {
        if expected[i] != actual[i] {
            return Err(
                BackupError::RowCountMismatch {
                    table: tables[i],
                    expected: expected[i],
                    actual: actual[i],
                },
            );
        }
        i = i + 1;
    }
    proof {
        assert(expected@ =~= actual@);
    }
    Ok(())
}


/// Name for the SHA-256 digest of a byte sequence, as `sha2::Sha256` computes it.
pub uninterp spec fn spec_sha256(data: Seq<u8>) -> Seq<u8>;

/// `sha2::Sha256`: the digest of `data`, named `spec_sha256`; it is 32 bytes long.
#[verifier::external_body]
fn sha256_digest(data: &[u8]) -> (r: Vec<u8>)
    ensures
        r@ == spec_sha256(data@),
        r@.len() == 32,
{
    sha2::Sha256::digest(data).to_vec()
}

/// The lower-case hexadecimal digit of `d` (0..=15).
pub open spec fn hex_digit(d: int) -> char {
    if d < 10 {
        (48 + d) as char
    } else {
        (87 + d) as char
    }
}

/// Lower-case hexadecimal encoding: two digits per byte, high nibble first.
pub open spec fn hex_lower(data: Seq<u8>) -> Seq<char>
    decreases data.len(),
{
    if data.len() == 0 {
        Seq::empty()
    } else {
        hex_lower(data.drop_last()) + seq![
            hex_digit((data.last() / 16) as int),
            hex_digit((data.last() % 16) as int),
        ]
    }
}

/// `hex::encode`: each byte as two lower-case hexadecimal digits, high nibble first.
#[verifier::external_body]
fn hex_encode(data: &[u8]) -> (r: String)
    ensures
        r@ == hex_lower(data@),
{
    hex::encode(data)
}

proof fn lemma_hex_lower_shape(data: Seq<u8>)
    ensures
        hex_lower(data).len() == 2 * data.len(),
        forall|i: int| 0 <= i < hex_lower(data).len() ==> (#[trigger] hex_lower(data)[i] as u32) < 128,
    decreases data.len(),
{
    if data.len() > 0 {
        lemma_hex_lower_shape(data.drop_last());
        let a = hex_lower(data.drop_last());
        let t = seq![hex_digit((data.last() / 16) as int), hex_digit((data.last() % 16) as int)];
        assert forall|i: int| 0 <= i < hex_lower(data).len() implies (#[trigger] hex_lower(
            data,
        )[i] as u32) < 128 by {
            if i < a.len() {
                assert(hex_lower(data)[i] == a[i]);
            } else {
                assert(hex_lower(data)[i] == t[i - a.len()]);
            }
        }
    }
}

/// The checksum that backups record: the SHA-256 digest of the database file's
/// bytes in lower-case hexadecimal (64 ASCII characters).
pub fn sha256_hex(data: &[u8]) -> (r: String)
    ensures
        r@ == hex_lower(spec_sha256(data@)),
        r@.len() == 64,
        forall|i: int| 0 <= i < r@.len() ==> (#[trigger] r@[i] as u32) < 128,
{
    let digest = sha256_digest(data);
    let r = hex_encode(digest.as_slice());
    proof {
        lemma_hex_lower_shape(spec_sha256(data@));
    }
    r
}

/// A string literal quoted for SQL: each single quote doubled.
pub open spec fn escape_quotes(s: Seq<char>) -> Seq<char>
    decreases s.len(),
{
    if s.len() == 0 {
        Seq::empty()
    } else if s.last() == '\'' {
        escape_quotes(s.drop_last()) + seq!['\'', '\'']
    } else {
        escape_quotes(s.drop_last()).push(s.last())
    }
}

/// Doubles every single quote of `s` (`s.replace('\'', "''")`).
pub fn escape_sql_literal(s: &str) -> (r: String)
    ensures
        r@ == escape_quotes(s@),
{
    let n = s.unicode_len();
    let mut r = String::new();
    let mut i: usize = 0;
    while i < n
        invariant
            n == s@.len(),
            i <= n,
            r@ == escape_quotes(s@.take(i as int)),
        decreases n - i,
    {
        let c = s.get_char(i);
        proof {
            assert(s@.take(i + 1).drop_last() =~= s@.take(i as int));
            assert(s@.take(i + 1).last() == c);
        }
        if c == '\'' {
            push_char(&mut r, '\'');
            push_char(&mut r, '\'');
            proof {
                assert(r@ =~= escape_quotes(s@.take(i as int)) + seq!['\'', '\'']);
            }
        } else {
            push_char(&mut r, c);
        }
        i = i + 1;
    }
    proof {
        assert(s@.take(n as int) =~= s@);
    }
    r
}

/// The statement that writes a copy of the open database to `path`.
pub fn vacuum_into_sql(path: &str) -> (r: String)
    ensures
        r@ == "VACUUM INTO '"@ + escape_quotes(path@) + "'"@,
{
    let e = escape_sql_literal(path);
    let mut r = String::new();
    push_str(&mut r, "VACUUM INTO '");
    push_str(&mut r, e.as_str());
    push_str(&mut r, "'");
    proof {
        assert(r@ =~= "VACUUM INTO '"@ + escape_quotes(path@) + "'"@);
    }
    r
}

/// The statement that attaches the backup database at `path` as `backup_db`.
pub fn attach_backup_sql(path: &str) -> (r: String)
    ensures
        r@ == "ATTACH DATABASE '"@ + escape_quotes(path@) + "' AS backup_db"@,
{
    let e = escape_sql_literal(path);
    let mut r = String::new();
    push_str(&mut r, "ATTACH DATABASE '");
    push_str(&mut r, e.as_str());
    push_str(&mut r, "' AS backup_db");
    proof {
        assert(r@ =~= "ATTACH DATABASE '"@ + escape_quotes(path@) + "' AS backup_db"@);
    }
    r
}

/// The statement that empties a table.
pub fn delete_table_sql(table: Table) -> (r: String)
    ensures
        r@ == "DELETE FROM "@ + table_name(table),
{
    let mut r = String::new();
    push_str(&mut r, "DELETE FROM ");
    push_str(&mut r, table.name());
    proof {
        assert(r@ =~= "DELETE FROM "@ + table_name(table));
    }
    r
}

/// The query that counts the rows of a table of the attached backup.
pub fn count_backup_rows_sql(table: Table) -> (r: String)
    ensures
        r@ == "SELECT COUNT(*) FROM backup_db."@ + quoted(table_name(table)),
{
    let q = quote_ident(table.name());
    let mut r = String::new();
    push_str(&mut r, "SELECT COUNT(*) FROM backup_db.");
    push_str(&mut r, q.as_str());
    proof {
        assert(r@ =~= "SELECT COUNT(*) FROM backup_db."@ + quoted(table_name(table)));
    }
    r
}

/// The query that counts the rows of a table of the current database.
pub fn count_rows_sql(table: Table) -> (r: String)
    ensures
        r@ == "SELECT COUNT(*) FROM "@ + quoted(table_name(table)),
{
    let q = quote_ident(table.name());
    let mut r = String::new();
    push_str(&mut r, "SELECT COUNT(*) FROM ");
    push_str(&mut r, q.as_str());
    proof {
        assert(r@ =~= "SELECT COUNT(*) FROM "@ + quoted(table_name(table)));
    }
    r
}

/// The query that tells whether the attached backup has a table.
pub fn backup_table_exists_sql(table: Table) -> (r: String)
    ensures
        r@ == "SELECT COUNT(*) FROM backup_db.sqlite_master WHERE type='table' AND name='"@
            + table_name(table) + "'"@,
{
    let mut r = String::new();
    push_str(&mut r, "SELECT COUNT(*) FROM backup_db.sqlite_master WHERE type='table' AND name='");
    push_str(&mut r, table.name());
    push_str(&mut r, "'");
    proof {
        assert(r@ =~= "SELECT COUNT(*) FROM backup_db.sqlite_master WHERE type='table' AND name='"@
            + table_name(table) + "'"@);
    }
    r
}

/// The query that lists the columns of a table in schema `main` (when
/// `in_backup` is false) or `backup_db`.
pub fn table_info_sql(table: Table, in_backup: bool) -> (r: String)
    ensures
        r@ == "PRAGMA "@ + (if in_backup {
            "backup_db"@
        } else {
            "main"@
        }) + ".table_info("@ + quoted(table_name(table)) + ")"@,
{
    let q = quote_ident(table.name());
    let mut r = String::new();
    push_str(&mut r, "PRAGMA ");
    if in_backup {
        push_str(&mut r, "backup_db");
    } else {
        push_str(&mut r, "main");
    }
    push_str(&mut r, ".table_info(");
    push_str(&mut r, q.as_str());
    push_str(&mut r, ")");
    proof {
        assert(r@ =~= "PRAGMA "@ + (if in_backup {
            "backup_db"@
        } else {
            "main"@
        }) + ".table_info("@ + quoted(table_name(table)) + ")"@);
    }
    r
}


/// The message shown for a refused backup, for every kind but a legacy checksum
/// mismatch, whose message quotes the heads of both checksums.
pub open spec fn backup_error_text(e: BackupError) -> Seq<char> {
    match e {
        BackupError::FileMissing => "备份文件不存在"@,
        BackupError::FileEmpty => "备份文件为空"@,
        BackupError::NotSqlite => "备份文件不是有效的 SQLite 数据库"@,
        BackupError::UnsupportedFormat { version } => "不支持的备份格式版本: "@ + version@,
        BackupError::PackageChecksumMismatch => "备份包校验失败：数据库内容与清单记录不一致，文件可能已损坏或被篡改"@,
        BackupError::LegacyChecksumMissing => "旧版备份缺少 .sha256 校验文件，出于安全原因拒绝恢复"@,
        BackupError::LegacyChecksumEmpty => "旧版备份的 .sha256 校验文件为空，拒绝恢复"@,
        BackupError::LegacyChecksumMismatch { .. } => Seq::empty(),
        BackupError::IntegrityFailed { report } => "备份文件数据库完整性检查失败: "@ + report@,
        BackupError::MissingTable { table } => "备份文件缺少必需的表: "@ + table_name(table),
        BackupError::NoSharedColumns { table } => "表 "@ + table_name(table)
            + " 在当前数据库与备份之间不存在可恢复的同名列"@,
        BackupError::RowCountMismatch { table, expected, actual } => "表 "@ + table_name(table)
            + " 导入行数不一致: 期望 "@ + decimal_int(expected as int) + ", 实际 "@ + decimal_int(
            actual as int,
        ),
    }
}

/// Whether the first 16 bytes of the UTF-8 encoding of `s` end on a character.
pub open spec fn has_16_byte_head(s: Seq<char>) -> bool {
    encode_utf8(s).len() >= 16 && is_char_boundary(encode_utf8(s), 16)
}

impl BackupError {
    /// The message shown to the user. A legacy checksum mismatch quotes the
    /// first 16 bytes of both checksums, which must end on a character.
    pub fn message(&self) -> (r: String)
        requires
            self matches BackupError::LegacyChecksumMismatch { current, stored } ==> has_16_byte_head(
                current@,
            ) && has_16_byte_head(stored@),
        ensures
            !(self is LegacyChecksumMismatch) ==> r@ == backup_error_text(*self),
            self matches BackupError::LegacyChecksumMismatch { current, stored } ==> exists|
                a: Seq<char>,
                b: Seq<char>,
            |
                encode_utf8(a) == encode_utf8(current@).take(16) && encode_utf8(b) == encode_utf8(
                    stored@,
                ).take(16) && r@ == "备份文件校验失败：当前 SHA256 ("@ + a + ") 与校验文件 ("@ + b
                    + ") 不匹配，文件可能已损坏或被篡改"@,
    {
        let mut r = String::new();
        match self {
            BackupError::FileMissing => push_str(&mut r, "备份文件不存在"),
            BackupError::FileEmpty => push_str(&mut r, "备份文件为空"),
            BackupError::NotSqlite => push_str(&mut r, "备份文件不是有效的 SQLite 数据库"),
            BackupError::UnsupportedFormat { version } => {
                push_str(&mut r, "不支持的备份格式版本: ");
                push_str(&mut r, version.as_str());
            },
            BackupError::PackageChecksumMismatch => push_str(
                &mut r,
                "备份包校验失败：数据库内容与清单记录不一致，文件可能已损坏或被篡改",
            ),
            BackupError::LegacyChecksumMissing => push_str(
                &mut r,
                "旧版备份缺少 .sha256 校验文件，出于安全原因拒绝恢复",
            ),
            BackupError::LegacyChecksumEmpty => push_str(
                &mut r,
                "旧版备份的 .sha256 校验文件为空，拒绝恢复",
            ),
            BackupError::LegacyChecksumMismatch { current, stored } => {
                let (a, _) = current.as_str().split_at(16);
                let (b, _) = stored.as_str().split_at(16);
                push_str(&mut r, "备份文件校验失败：当前 SHA256 (");
                push_str(&mut r, a);
                push_str(&mut r, ") 与校验文件 (");
                push_str(&mut r, b);
                push_str(&mut r, ") 不匹配，文件可能已损坏或被篡改");
                proof {
                    assert(r@ =~= "备份文件校验失败：当前 SHA256 ("@ + a@ + ") 与校验文件 ("@ + b@
                        + ") 不匹配，文件可能已损坏或被篡改"@);
                }
            },
            BackupError::IntegrityFailed { report } => {
                push_str(&mut r, "备份文件数据库完整性检查失败: ");
                push_str(&mut r, report.as_str());
            },
            BackupError::MissingTable { table } => {
                push_str(&mut r, "备份文件缺少必需的表: ");
                push_str(&mut r, table.name());
            },
            BackupError::NoSharedColumns { table } => {
                push_str(&mut r, "表 ");
                push_str(&mut r, table.name());
                push_str(&mut r, " 在当前数据库与备份之间不存在可恢复的同名列");
            },
            BackupError::RowCountMismatch { table, expected, actual } => {
                push_str(&mut r, "表 ");
                push_str(&mut r, table.name());
                push_str(&mut r, " 导入行数不一致: 期望 ");
                push_decimal_i64(&mut r, *expected);
                push_str(&mut r, ", 实际 ");
                push_decimal_i64(&mut r, *actual);
            },
        }
        proof {
            if !(self is LegacyChecksumMismatch) {
                assert(r@ =~= backup_error_text(*self));
            }
        }
        r
    }
}


/// The message of a failed restore: what went wrong, and where the database
/// as it was before the restore was saved.
pub fn restore_failure_message(reason: &str, auto_backup_path: &str) -> (r: String)
    ensures
        r@ == "恢复失败: "@ + reason@ + "。原数据库已自动备份到: "@ + auto_backup_path@,
{
    let mut m = String::new();
    push_str(&mut m, "恢复失败: ");
    push_str(&mut m, reason);
    push_str(&mut m, "。原数据库已自动备份到: ");
    push_str(&mut m, auto_backup_path);
    proof {
        assert(m@ =~= "恢复失败: "@ + reason@ + "。原数据库已自动备份到: "@ + auto_backup_path@);
    }
    m
}

/// Whether a file's content starts with the SQLite header.
pub open spec fn sqlite_content(content: Seq<u8>) -> bool {
    content.len() >= 16 && content.take(16) == sqlite_magic()
}

/// Whether a legacy backup's `.sha256` file (`None` when absent) records the
/// checksum `current`.
pub open spec fn legacy_checksum_matches(stored: Option<Seq<char>>, current: Seq<char>) -> bool {
    stored is Some && trim_seq(stored.unwrap()).len() > 0 && trim_seq(stored.unwrap()) == current
}

/// Whether a backup file passes the checks made on its bytes alone: the SQLite
/// header and, where required, the legacy checksum file.
pub open spec fn file_checks_pass(content: Seq<u8>, require_legacy: bool, stored: Option<Seq<char>>) -> bool {
    sqlite_content(content) && (require_legacy ==> legacy_checksum_matches(
        stored,
        hex_lower(spec_sha256(content)),
    ))
}

/// The views of an optional string.
pub open spec fn opt_view(s: Option<&str>) -> Option<Seq<char>> {
    match s {
        Some(x) => Some(x@),
        None => None,
    }
}

/// The verdict on a backup database file, from what was read of it.
///
/// `content` is the file's bytes; `require_legacy` asks for the legacy
/// checksum file, whose content is `stored_checksum` (`None` when it does not
/// exist); `meta_present` says whether the database holds `_backup_meta`;
/// then, only where it does, `integrity_report` is the answer of the integrity
/// check and `tables_present[i]` says whether the `i`-th required table exists.
/// The checks come in that order, the first failing one decides, and a
/// database without `_backup_meta` is accepted on its file checks alone. On
/// success the file's checksum is handed back.
pub fn backup_file_verdict(
    content: &[u8],
    require_legacy: bool,
    stored_checksum: Option<&str>,
    meta_present: bool,
    integrity_report: Option<&str>,
    tables_present: &Vec<bool>,
) -> (r: Result<String, BackupError>)
    requires
        meta_present ==> integrity_report is Some,
        meta_present ==> tables_present@.len() == required_tables().len(),
    ensures
        content@.len() == 0 ==> r matches Err(BackupError::FileEmpty),
        content@.len() > 0 && !sqlite_content(content@) ==> r matches Err(BackupError::NotSqlite),
        sqlite_content(content@) && require_legacy && stored_checksum is None ==> r matches Err(
            BackupError::LegacyChecksumMissing,
        ),
        sqlite_content(content@) && require_legacy && stored_checksum is Some && trim_seq(
            stored_checksum.unwrap()@,
        ).len() == 0 ==> r matches Err(BackupError::LegacyChecksumEmpty),
        sqlite_content(content@) && require_legacy && stored_checksum is Some && trim_seq(
            stored_checksum.unwrap()@,
        ).len() > 0 && trim_seq(stored_checksum.unwrap()@) != hex_lower(spec_sha256(content@))
            ==> (r matches Err(BackupError::LegacyChecksumMismatch { current: c, stored: s }) && c@
            == hex_lower(spec_sha256(content@)) && s@ == trim_seq(stored_checksum.unwrap()@)),
        file_checks_pass(content@, require_legacy, opt_view(stored_checksum)) && !meta_present ==> (
        r matches Ok(h) && h@ == hex_lower(spec_sha256(content@))),
        file_checks_pass(content@, require_legacy, opt_view(stored_checksum)) && meta_present
            && integrity_report.unwrap()@ != "ok"@ ==> (r matches Err(
            BackupError::IntegrityFailed { report: s },
        ) && s@ == integrity_report.unwrap()@),
        file_checks_pass(content@, require_legacy, opt_view(stored_checksum)) && meta_present
            && integrity_report.unwrap()@ == "ok"@ && !(forall|i: int|
            0 <= i < tables_present@.len() ==> #[trigger] tables_present@[i]) ==> (r matches Err(
            BackupError::MissingTable { table: t },
        ) && first_missing(required_tables(), tables_present@) == Some(t)),
        file_checks_pass(content@, require_legacy, opt_view(stored_checksum)) && meta_present
            && integrity_report.unwrap()@ == "ok"@ && (forall|i: int|
            0 <= i < tables_present@.len() ==> #[trigger] tables_present@[i]) ==> (r matches Ok(h)
            && h@ == hex_lower(spec_sha256(content@))),
{
    check_backup_content(content)?;
    let hash = sha256_hex(content);
    if require_legacy {
        verify_legacy_checksum(stored_checksum, hash.as_str())?;
    }
    if !meta_present {
        return Ok(hash);
    }
    match integrity_report {
        Some(report) => check_integrity_report(report)?,
        None => {},
    }
    let tables = get_required_tables();
    check_tables_present(&tables, tables_present)?;
    Ok(hash)
}

#[verifier::external_type_specification]
#[verifier::external_body]
pub struct ExSystemTime(std::time::SystemTime);

/// `SystemTime::now`: the current time of the system clock; nothing is known of it.
#[verifier::external_body]
fn system_now() -> std::time::SystemTime {
    std::time::SystemTime::now()
}

/// `SystemTime::duration_since(UNIX_EPOCH)`: the time elapsed since the Unix
/// epoch, or `None` when the time lies before the epoch.
#[verifier::external_body]
fn since_unix_epoch(t: &std::time::SystemTime) -> Option<std::time::Duration> {
    t.duration_since(std::time::UNIX_EPOCH).ok()
}

/// `Duration::as_nanos`: the whole length in nanoseconds.
#[verifier::external_body]
fn duration_nanos(d: &std::time::Duration) -> u128 {
    d.as_nanos()
}

/// The suffix for a reading of the clock: the nanoseconds elapsed since the
/// Unix epoch, or 0 when the clock lay before the epoch (`None`).
pub fn suffix_from_elapsed(elapsed_nanos: Option<u128>) -> (r: u128)
    ensures
        r == (match elapsed_nanos {
            Some(n) => n,
            None => 0u128,
        }),
{
    match elapsed_nanos {
        Some(n) => n,
        None => 0,
    }
}

/// A suffix that makes temporary file names unique: the nanoseconds elapsed
/// since the Unix epoch, or 0 when the clock lies before the epoch. The value
/// comes from the system clock, so the contract leaves it open; what is done
/// with the clock's reading is `suffix_from_elapsed`.
pub fn unique_suffix() -> u128 {
    let now = system_now();
    let elapsed: Option<u128> = match since_unix_epoch(&now) {
        Some(d) => Some(duration_nanos(&d)),
        None => None,
    };
    suffix_from_elapsed(elapsed)
}

} // verus!
