use vstd::prelude::*;

use crate::query::opt_view;
use crate::text::{decimal_nat, join, join_strings, push_decimal_u64, push_str, str_eq, trim, trim_seq, views};

verus! {

/// A student of a cohort, as stored.
#[derive(Debug)]
pub struct Student {
    pub id: i64,
    pub cohort_id: i64,
    pub name: String,
    pub student_no: String,
    pub gender: Option<String>,
    pub phone: Option<String>,
    pub parent_name: Option<String>,
    pub parent_phone: Option<String>,
    pub address: Option<String>,
    pub group_name: Option<String>,
    pub status: String,
    pub is_focus: bool,
    pub remark: Option<String>,
    pub created_at: String,
    pub updated_at: String,
    pub deleted_at: Option<String>,
}

/// One page of a list, with the number of rows that match in all.
#[derive(Debug)]
pub struct PaginatedResult<T> {
    pub data: Vec<T>,
    pub total: i64,
    pub page: i64,
    pub page_size: i64,
}

// ---------------------------------------------------------------------------
// The import sheet. Its first row holds the column titles; the columns are
// student number, name, gender, phone, parent name, parent phone and group.
// ---------------------------------------------------------------------------

/// The text of cell `k` of a row, without surrounding white space; empty
/// where the row has no such cell.
pub open spec fn cell_text(row: Seq<String>, k: int) -> Seq<char> {
    if 0 <= k < row.len() {
        trim_seq(row[k]@)
    } else {
        Seq::empty()
    }
}

/// The text of cell `k`, or `None` where it is empty.
pub open spec fn optional_cell(row: Seq<String>, k: int) -> Option<Seq<char>> {
    if cell_text(row, k).len() == 0 {
        None
    } else {
        Some(cell_text(row, k))
    }
}

/// A row with neither a student number nor a name is skipped.
pub open spec fn is_blank_row(row: Seq<String>) -> bool {
    cell_text(row, 0).len() == 0 && cell_text(row, 1).len() == 0
}

/// The two genders a sheet may give.
pub open spec fn valid_gender(g: Seq<char>) -> bool {
    g == "男"@ || g == "女"@
}

/// `第n行: `, which starts the message about sheet row `n` (counted from 1).
pub open spec fn row_prefix(n: nat) -> Seq<char> {
    "第"@ + decimal_nat(n) + "行: "@
}

/// A sheet row read as a student.
pub struct ImportRowView {
    pub row: nat,
    pub student_no: Seq<char>,
    pub name: Seq<char>,
    pub gender: Option<Seq<char>>,
    pub phone: Option<Seq<char>>,
    pub parent_name: Option<Seq<char>>,
    pub parent_phone: Option<Seq<char>>,
    pub group_name: Option<Seq<char>>,
}

/// Row `i` of the sheet (counted from 0) read as a student.
pub open spec fn row_view(sheet: Seq<Vec<String>>, i: int) -> ImportRowView {
    let r = sheet[i]@;
    ImportRowView {
        row: (i + 1) as nat,
        student_no: cell_text(r, 0),
        name: cell_text(r, 1),
        gender: optional_cell(r, 2),
        phone: optional_cell(r, 3),
        parent_name: optional_cell(r, 4),
        parent_phone: optional_cell(r, 5),
        group_name: optional_cell(r, 6),
    }
}

/// A student read from a sheet row, ready to be inserted.
#[derive(Debug)]
pub struct ImportRow {
    pub row: usize,
    pub student_no: String,
    pub name: String,
    pub gender: Option<String>,
    pub phone: Option<String>,
    pub parent_name: Option<String>,
    pub parent_phone: Option<String>,
    pub group_name: Option<String>,
}

impl View for ImportRow {
    type V = ImportRowView;

    open spec fn view(&self) -> ImportRowView {
        ImportRowView {
            row: self.row as nat,
            student_no: self.student_no@,
            name: self.name@,
            gender: opt_view(self.gender),
            phone: opt_view(self.phone),
            parent_name: opt_view(self.parent_name),
            parent_phone: opt_view(self.parent_phone),
            group_name: opt_view(self.group_name),
        }
    }
}

/// The views of a sequence of rows.
pub open spec fn row_views(v: Seq<ImportRow>) -> Seq<ImportRowView> {
    v.map_values(|r: ImportRow| r@)
}

/// The student numbers that the import has registered before row `i`: those
/// of the earlier rows that have both a student number and a name.
pub open spec fn import_seen(sheet: Seq<Vec<String>>, i: int) -> Seq<Seq<char>>
    decreases i,
{
    if i <= 1 {
        Seq::empty()
    } else {
        let prev = import_seen(sheet, i - 1);
        let r = sheet[i - 1]@;
        if cell_text(r, 0).len() > 0 && cell_text(r, 1).len() > 0 {
            prev.push(cell_text(r, 0))
        } else {
            prev
        }
    }
}

/// What the import finds wrong with row `i`, the first check that fails, or
/// `None`. `existing` holds the student numbers already in the cohort.
pub open spec fn import_row_error(sheet: Seq<Vec<String>>, existing: Seq<Seq<char>>, i: int) -> Option<Seq<char>> {
    let r = sheet[i]@;
    let no = cell_text(r, 0);
    let name = cell_text(r, 1);
    let g = optional_cell(r, 2);
    let p = row_prefix((i + 1) as nat);
    if no.len() == 0 {
        Some(p + "学号为空"@)
    } else if name.len() == 0 {
        Some(p + "姓名为空"@)
    } else if import_seen(sheet, i).contains(no) {
        Some(p + "学号 '"@ + no + "' 在文件中重复出现"@)
    } else if g is Some && !valid_gender(g.unwrap()) {
        Some(p + "性别 '"@ + g.unwrap() + "' 无效，只允许 '男' 或 '女'"@)
    } else if existing.contains(no) {
        Some(p + "学号 '"@ + no + "' 在当前届次已存在"@)
    } else {
        None
    }
}

/// The messages and the accepted rows of the import over the first `i` rows
/// of the sheet (the title row and blank rows are skipped).
pub open spec fn import_outcome(sheet: Seq<Vec<String>>, existing: Seq<Seq<char>>, i: int) -> (Seq<Seq<char>>, Seq<ImportRowView>)
    decreases i,
{
    if i <= 1 {
        (Seq::empty(), Seq::empty())
    } else {
        let (errs, rows) = import_outcome(sheet, existing, i - 1);
        let k = i - 1;
        if is_blank_row(sheet[k]@) {
            (errs, rows)
        } else {
            match import_row_error(sheet, existing, k) {
                Some(e) => (errs.push(e), rows),
                None => (errs, rows.push(row_view(sheet, k))),
            }
        }
    }
}

/// The trimmed text of cell `k` of a row.
fn cell(row: &Vec<String>, k: usize) -> (r: String)
    ensures
        r@ == cell_text(row@, k as int),
{
    if k < row.len() {
        trim(row[k].as_str())
    } else {
        String::new()
    }
}

/// The trimmed text of cell `k`, or `None` where it is empty.
fn optional(row: &Vec<String>, k: usize) -> (r: Option<String>)
    ensures
        opt_view(r) == optional_cell(row@, k as int),
{
    let t = cell(row, k);
    if t.as_str().is_empty() {
        None
    } else {
        Some(t)
    }
}

/// Whether `v` holds a string equal to `s`.
pub fn contains_text(v: &Vec<String>, s: &str) -> (r: bool)
    ensures
        r == views(v@).contains(s@),
{
    let mut i: usize = 0;
    while i < v.len()
        invariant
            i <= v.len(),
            forall|j: int| 0 <= j < i ==> views(v@)[j] != s@,
        decreases v.len() - i,
    {
        if str_eq(v[i].as_str(), s) {
            proof {
                assert(views(v@)[i as int] == s@);
            }
            return true;
        }
        i = i + 1;
    }
    false
}

/// Whether `g` names one of the two genders.
pub fn is_valid_gender(g: &str) -> (r: bool)
    ensures
        r == valid_gender(g@),
{
    str_eq(g, "男") || str_eq(g, "女")
}

/// `第n行: ` followed by nothing yet.
fn start_message(n: usize) -> (r: String)
    ensures
        r@ == row_prefix(n as nat),
{
    let mut m = String::new();
    push_str(&mut m, "第");
    push_decimal_u64(&mut m, n as u64);
    push_str(&mut m, "行: ");
    proof {
        assert(m@ =~= row_prefix(n as nat));
    }
    m
}

/// `prefix + a + middle + b`.
fn compose(prefix: String, a: &str, middle: &str, b: &str) -> (r: String)
    ensures
        r@ == prefix@ + a@ + middle@ + b@,
{
    let mut m = prefix;
    push_str(&mut m, a);
    push_str(&mut m, middle);
    push_str(&mut m, b);
    m
}

/// Checks every sheet row of a student import. Where any row is wrong the
/// result is `Err` with one message per wrong row, in sheet order, and no
/// student is to be inserted; otherwise it is `Ok` with the students of all
/// rows that are not blank. `existing` holds the student numbers of the
/// cohort's students that are not deleted.
pub fn plan_student_import(sheet: &Vec<Vec<String>>, existing: &Vec<String>) -> (r: Result<Vec<ImportRow>, Vec<String>>)
    ensures
        ({
            let (errs, rows) = import_outcome(sheet@, views(existing@), sheet.len() as int);
            match r {
                Ok(v) => errs.len() == 0 && row_views(v@) == rows,
                Err(e) => errs.len() > 0 && views(e@) == errs,
            }
        }),
{
    let ghost ex = views(existing@);
    let mut errors: Vec<String> = Vec::new();
    let mut rows: Vec<ImportRow> = Vec::new();
    let mut seen: Vec<String> = Vec::new();
    let mut i: usize = 1;
    if sheet.len() == 0 {
        return Ok(rows);
    }
    proof {
        assert(views(errors@) =~= Seq::<Seq<char>>::empty());
        assert(row_views(rows@) =~= Seq::<ImportRowView>::empty());
        assert(views(seen@) =~= Seq::<Seq<char>>::empty());
    }
    while i < sheet.len()
        invariant
            1 <= i <= sheet.len(),
            ex == views(existing@),
            views(seen@) == import_seen(sheet@, i as int),
            views(errors@) == import_outcome(sheet@, ex, i as int).0,
            row_views(rows@) == import_outcome(sheet@, ex, i as int).1,
        decreases sheet.len() - i,
    {
        let row = &sheet[i];
        let ghost k = i as int;
        let no = cell(row, 0);
        let name = cell(row, 1);
        let ghost seen_before = views(seen@);
        let ghost errs_before = views(errors@);
        let ghost rows_before = row_views(rows@);
        if !(no.as_str().is_empty() && name.as_str().is_empty()) {
            let n = i + 1;
            let gender = optional(row, 2);
            let bad_gender: Option<String> = match &gender {
                Some(g) => if is_valid_gender(g.as_str()) {
                    None
                } else {
                    Some(g.clone())
                },
                None => None,
            };
            let failure: Option<String> = if no.as_str().is_empty() {
                let mut m = start_message(n);
                push_str(&mut m, "学号为空");
                Some(m)
            } else if name.as_str().is_empty() {
                let mut m = start_message(n);
                push_str(&mut m, "姓名为空");
                Some(m)
            } else if contains_text(&seen, no.as_str()) {
                Some(compose(start_message(n), "学号 '", no.as_str(), "' 在文件中重复出现"))
            } else if let Some(g) = bad_gender {
                Some(compose(start_message(n), "性别 '", g.as_str(), "' 无效，只允许 '男' 或 '女'"))
            } else if contains_text(existing, no.as_str()) {
                Some(compose(start_message(n), "学号 '", no.as_str(), "' 在当前届次已存在"))
            } else {
                None
            };
            proof {
                assert(opt_view(failure) == import_row_error(sheet@, ex, k));
            }
            match failure {
                Some(m) => {
                    errors.push(m);
                    proof {
                        assert(views(errors@) =~= errs_before.push(import_row_error(sheet@, ex, k).unwrap()));
                        assert(row_views(rows@) =~= rows_before);
                    }
                },
                None => {
                    let item = ImportRow {
                        row: n,
                        student_no: no.clone(),
                        name: name.clone(),
                        gender,
                        phone: optional(row, 3),
                        parent_name: optional(row, 4),
                        parent_phone: optional(row, 5),
                        group_name: optional(row, 6),
                    };
                    rows.push(item);
                    proof {
                        assert(item@ == row_view(sheet@, k));
                        assert(row_views(rows@) =~= rows_before.push(row_view(sheet@, k)));
                        assert(views(errors@) =~= errs_before);
                    }
                },
            }
        }
        if !no.as_str().is_empty() && !name.as_str().is_empty() {
            seen.push(no);
            proof {
                assert(views(seen@) =~= seen_before.push(cell_text(sheet@[k]@, 0)));
            }
        }
        i = i + 1;
    }
    if errors.len() > 0 {
        Err(errors)
    } else {
        Ok(rows)
    }
}


/// The student numbers that the preview has met before row `i`: those of the
/// earlier rows that have a student number.
pub open spec fn preview_seen(sheet: Seq<Vec<String>>, i: int) -> Seq<Seq<char>>
    decreases i,
{
    if i <= 1 {
        Seq::empty()
    } else {
        let prev = preview_seen(sheet, i - 1);
        let r = sheet[i - 1]@;
        if cell_text(r, 0).len() > 0 {
            prev.push(cell_text(r, 0))
        } else {
            prev
        }
    }
}

/// Everything the preview finds wrong with row `i`, in the order it checks.
pub open spec fn preview_row_errors(sheet: Seq<Vec<String>>, existing: Seq<Seq<char>>, i: int) -> Seq<Seq<char>> {
    let r = sheet[i]@;
    let no = cell_text(r, 0);
    let name = cell_text(r, 1);
    let g = optional_cell(r, 2);
    let e1: Seq<Seq<char>> = if no.len() == 0 {
        seq!["学号为空"@]
    } else {
        Seq::empty()
    };
    let e2: Seq<Seq<char>> = if name.len() == 0 {
        seq!["姓名为空"@]
    } else {
        Seq::empty()
    };
    let e3: Seq<Seq<char>> = if no.len() > 0 && preview_seen(sheet, i).contains(no) {
        seq!["学号'"@ + no + "'在文件中重复出现"@]
    } else {
        Seq::empty()
    };
    let e4: Seq<Seq<char>> = if g is Some && !valid_gender(g.unwrap()) {
        seq!["性别'"@ + g.unwrap() + "'无效"@]
    } else {
        Seq::empty()
    };
    let e5: Seq<Seq<char>> = if no.len() > 0 && existing.contains(no) {
        seq!["学号'"@ + no + "'已在数据库中存在"@]
    } else {
        Seq::empty()
    };
    e1 + e2 + e3 + e4 + e5
}

/// A previewed row: the student it reads as, whether it is valid, and what
/// is wrong with it.
pub struct PreviewRowView {
    pub student: ImportRowView,
    pub valid: bool,
    pub errors: Seq<Seq<char>>,
}

/// The previewed rows, the one-line message of each wrong row, and the number
/// of valid rows, over the first `i` rows of the sheet.
pub open spec fn preview_outcome(sheet: Seq<Vec<String>>, existing: Seq<Seq<char>>, i: int) -> (Seq<PreviewRowView>, Seq<Seq<char>>, nat)
    decreases i,
{
    if i <= 1 {
        (Seq::empty(), Seq::empty(), 0)
    } else {
        let (rows, errs, valid) = preview_outcome(sheet, existing, i - 1);
        let k = i - 1;
        if is_blank_row(sheet[k]@) {
            (rows, errs, valid)
        } else {
            let es = preview_row_errors(sheet, existing, k);
            let pr = PreviewRowView { student: row_view(sheet, k), valid: es.len() == 0, errors: es };
            if es.len() == 0 {
                (rows.push(pr), errs, valid + 1)
            } else {
                (rows.push(pr), errs.push(row_prefix((k + 1) as nat) + join(es, ", "@)), valid)
            }
        }
    }
}

/// A previewed sheet row.
#[derive(Debug)]
pub struct PreviewRow {
    pub student: ImportRow,
    pub valid: bool,
    pub errors: Vec<String>,
}

impl View for PreviewRow {
    type V = PreviewRowView;

    open spec fn view(&self) -> PreviewRowView {
        PreviewRowView { student: self.student@, valid: self.valid, errors: views(self.errors@) }
    }
}

/// The views of a sequence of previewed rows.
pub open spec fn preview_views(v: Seq<PreviewRow>) -> Seq<PreviewRowView> {
    v.map_values(|r: PreviewRow| r@)
}

/// The preview of a student import: every row that is not blank, the message
/// of each wrong row, and how many rows are valid.
#[derive(Debug)]
pub struct StudentPreview {
    pub rows: Vec<PreviewRow>,
    pub errors: Vec<String>,
    pub valid_rows: usize,
}

fn single(m: String) -> (r: Vec<String>)
    ensures
        views(r@) == seq![m@],
{
    let mut v: Vec<String> = Vec::new();
    v.push(m);
    proof {
        assert(views(v@) =~= seq![m@]);
    }
    v
}

/// Appends `extra` to `v`.
fn extend(v: &mut Vec<String>, extra: Vec<String>)
    ensures
        views(final(v)@) == views(old(v)@) + views(extra@),
{
    let mut extra = extra;
    let ghost moved = extra@;
    v.append(&mut extra);
    proof {
        assert(views(v@) =~= views(old(v)@) + views(moved));
    }
}

/// The errors of one previewed row, in the order the preview checks them.
fn preview_errors_of(
    no: &String,
    name: &String,
    gender: &Option<String>,
    in_file: bool,
    in_cohort: bool,
) -> (r: Vec<String>)
    ensures
        views(r@) == ({
            let e1: Seq<Seq<char>> = if no@.len() == 0 { seq!["学号为空"@] } else { Seq::empty() };
            let e2: Seq<Seq<char>> = if name@.len() == 0 { seq!["姓名为空"@] } else { Seq::empty() };
            let e3: Seq<Seq<char>> = if no@.len() > 0 && in_file {
                seq!["学号'"@ + no@ + "'在文件中重复出现"@]
            } else {
                Seq::empty()
            };
            let g = opt_view(*gender);
            let e4: Seq<Seq<char>> = if g is Some && !valid_gender(g.unwrap()) {
                seq!["性别'"@ + g.unwrap() + "'无效"@]
            } else {
                Seq::empty()
            };
            let e5: Seq<Seq<char>> = if no@.len() > 0 && in_cohort {
                seq!["学号'"@ + no@ + "'已在数据库中存在"@]
            } else {
                Seq::empty()
            };
            e1 + e2 + e3 + e4 + e5
        }),
{
    let mut r: Vec<String> = Vec::new();
    let ghost mut acc: Seq<Seq<char>> = Seq::empty();
    proof {
        assert(views(r@) =~= acc);
    }
    if no.as_str().is_empty() {
        let mut m = String::new();
        push_str(&mut m, "学号为空");
        extend(&mut r, single(m));
    }
    if name.as_str().is_empty() {
        let mut m = String::new();
        push_str(&mut m, "姓名为空");
        extend(&mut r, single(m));
    }
    if !no.as_str().is_empty() && in_file {
        extend(&mut r, single(compose(String::new(), "学号'", no.as_str(), "'在文件中重复出现")));
    }
    match gender {
        Some(g) => {
            if !is_valid_gender(g.as_str()) {
                extend(&mut r, single(compose(String::new(), "性别'", g.as_str(), "'无效")));
            }
        },
        None => {},
    }
    if !no.as_str().is_empty() && in_cohort {
        extend(&mut r, single(compose(String::new(), "学号'", no.as_str(), "'已在数据库中存在")));
    }
    proof {
        let e1: Seq<Seq<char>> = if no@.len() == 0 { seq!["学号为空"@] } else { Seq::empty() };
        let e2: Seq<Seq<char>> = if name@.len() == 0 { seq!["姓名为空"@] } else { Seq::empty() };
        assert(Seq::<char>::empty() + "学号为空"@ =~= "学号为空"@);
        assert(Seq::<char>::empty() + "姓名为空"@ =~= "姓名为空"@);
        assert(Seq::<char>::empty() + "学号'"@ =~= "学号'"@);
        assert(Seq::<char>::empty() + "性别'"@ =~= "性别'"@);
    }
    r
}

/// Previews a student import without writing anything: every row that is
/// not blank, with all that is wrong with it, and one message per wrong row.
/// `existing` holds the student numbers of the cohort's students that are
/// not deleted.
#[verifier::rlimit(40)]
pub fn preview_student_import(sheet: &Vec<Vec<String>>, existing: &Vec<String>) -> (r: StudentPreview)
    ensures
        ({
            let (rows, errs, valid) = preview_outcome(sheet@, views(existing@), sheet.len() as int);
            &&& preview_views(r.rows@) == rows
            &&& views(r.errors@) == errs
            &&& r.valid_rows == valid
        }),
{
    let ghost ex = views(existing@);
    let mut errors: Vec<String> = Vec::new();
    let mut rows: Vec<PreviewRow> = Vec::new();
    let mut seen: Vec<String> = Vec::new();
    let mut valid: usize = 0;
    if sheet.len() == 0 {
        return StudentPreview { rows, errors, valid_rows: 0 };
    }
    let mut i: usize = 1;
    proof {
        assert(views(errors@) =~= Seq::<Seq<char>>::empty());
        assert(preview_views(rows@) =~= Seq::<PreviewRowView>::empty());
        assert(views(seen@) =~= Seq::<Seq<char>>::empty());
    }
    while i < sheet.len()
        invariant
            1 <= i <= sheet.len(),
            ex == views(existing@),
            views(seen@) == preview_seen(sheet@, i as int),
            views(errors@) == preview_outcome(sheet@, ex, i as int).1,
            preview_views(rows@) == preview_outcome(sheet@, ex, i as int).0,
            valid as nat == preview_outcome(sheet@, ex, i as int).2,
            valid <= rows.len() <= i,
        decreases sheet.len() - i,
    {
        let row = &sheet[i];
        let ghost k = i as int;
        let no = cell(row, 0);
        let name = cell(row, 1);
        let ghost seen_before = views(seen@);
        let ghost errs_before = views(errors@);
        let ghost rows_before = preview_views(rows@);
        if !(no.as_str().is_empty() && name.as_str().is_empty()) {
            let n = i + 1;
            let gender = optional(row, 2);
            let in_file = contains_text(&seen, no.as_str());
            let in_cohort = contains_text(existing, no.as_str());
            let es = preview_errors_of(&no, &name, &gender, in_file, in_cohort);
            proof {
                assert(views(es@) == preview_row_errors(sheet@, ex, k));
            }
            let ok = es.len() == 0;
            if !ok {
                let mut m = start_message(n);
                let joined = join_strings(&es, ", ");
                push_str(&mut m, joined.as_str());
                errors.push(m);
                proof {
                    assert(views(errors@) =~= errs_before.push(row_prefix((k + 1) as nat) + join(views(es@), ", "@)));
                }
            } else {
                valid = valid + 1;
                proof {
                    assert(views(errors@) =~= errs_before);
                }
            }
            let item = PreviewRow {
                student: ImportRow {
                    row: n,
                    student_no: no.clone(),
                    name: name.clone(),
                    gender,
                    phone: optional(row, 3),
                    parent_name: optional(row, 4),
                    parent_phone: optional(row, 5),
                    group_name: optional(row, 6),
                },
                valid: ok,
                errors: es,
            };
            rows.push(item);
            proof {
                assert(item.student@ == row_view(sheet@, k));
                assert(preview_views(rows@) =~= rows_before.push(item@));
            }
        }
        if !no.as_str().is_empty() {
            seen.push(no);
            proof {
                assert(views(seen@) =~= seen_before.push(cell_text(sheet@[k]@, 0)));
            }
        }
        i = i + 1;
    }
    StudentPreview { rows, errors, valid_rows: valid }
}

/// Every row from 1 up to `i` that is not blank has a student number and a name.
pub open spec fn fields_filled(sheet: Seq<Vec<String>>, i: int) -> bool {
    forall|j: int|
        #![trigger sheet[j]]
        1 <= j < i && !is_blank_row(sheet[j]@) ==> cell_text(sheet[j]@, 0).len() > 0 && cell_text(
            sheet[j]@,
            1,
        ).len() > 0
}

proof fn lemma_seen_agree(sheet: Seq<Vec<String>>, i: int)
    requires
        0 <= i <= sheet.len(),
        fields_filled(sheet, i),
    ensures
        import_seen(sheet, i) == preview_seen(sheet, i),
    decreases i,
{
    if i > 1 {
        assert(fields_filled(sheet, i - 1));
        lemma_seen_agree(sheet, i - 1);
        let r = sheet[i - 1]@;
        if cell_text(r, 0).len() > 0 {
            assert(!is_blank_row(sheet[i - 1]@));
        }
    }
}

proof fn lemma_import_clean(sheet: Seq<Vec<String>>, existing: Seq<Seq<char>>, i: int)
    requires
        0 <= i <= sheet.len(),
    ensures
        (import_outcome(sheet, existing, i).0.len() == 0) <==> (forall|j: int|
            #![trigger sheet[j]]
            1 <= j < i && !is_blank_row(sheet[j]@) ==> import_row_error(sheet, existing, j) is None),
    decreases i,
{
    if i > 1 {
        lemma_import_clean(sheet, existing, i - 1);
        let k = i - 1;
        if import_outcome(sheet, existing, i).0.len() == 0 {
            assert forall|j: int|
                #![trigger sheet[j]]
                1 <= j < i && !is_blank_row(sheet[j]@) implies import_row_error(sheet, existing, j) is None by {
                if j < k {
                    assert(import_outcome(sheet, existing, k).0.len() == 0);
                }
            }
        }
        if forall|j: int|
            #![trigger sheet[j]]
            1 <= j < i && !is_blank_row(sheet[j]@) ==> import_row_error(sheet, existing, j) is None {
            assert(forall|j: int|
                #![trigger sheet[j]]
                1 <= j < k && !is_blank_row(sheet[j]@) ==> import_row_error(sheet, existing, j) is None);
            assert(sheet[k] == sheet[k]);
        }
    }
}

proof fn lemma_preview_clean(sheet: Seq<Vec<String>>, existing: Seq<Seq<char>>, i: int)
    requires
        0 <= i <= sheet.len(),
    ensures
        preview_outcome(sheet, existing, i).2 <= preview_outcome(sheet, existing, i).0.len(),
        (preview_outcome(sheet, existing, i).2 == preview_outcome(sheet, existing, i).0.len()) <==> (
        forall|j: int|
            #![trigger sheet[j]]
            1 <= j < i && !is_blank_row(sheet[j]@) ==> preview_row_errors(sheet, existing, j).len()
                == 0),
    decreases i,
{
    if i > 1 {
        lemma_preview_clean(sheet, existing, i - 1);
        let k = i - 1;
        let o = preview_outcome(sheet, existing, i);
        if o.2 == o.0.len() {
            assert forall|j: int|
                #![trigger sheet[j]]
                1 <= j < i && !is_blank_row(sheet[j]@) implies preview_row_errors(sheet, existing, j).len() == 0 by {
                if j < k {
                    let p = preview_outcome(sheet, existing, k);
                    assert(p.2 == p.0.len());
                }
            }
        }
        if forall|j: int|
            #![trigger sheet[j]]
            1 <= j < i && !is_blank_row(sheet[j]@) ==> preview_row_errors(sheet, existing, j).len() == 0 {
            assert(forall|j: int|
                #![trigger sheet[j]]
                1 <= j < k && !is_blank_row(sheet[j]@) ==> preview_row_errors(sheet, existing, j).len()
                    == 0);
            assert(sheet[k] == sheet[k]);
        }
    }
}

/// The preview reports no wrong row exactly when the import accepts the
/// sheet: checking a sheet first and then importing it gives no surprise.
pub proof fn law_preview_agrees_with_import(sheet: Seq<Vec<String>>, existing: Seq<Seq<char>>)
    ensures
        (import_outcome(sheet, existing, sheet.len() as int).0.len() == 0) <==> (preview_outcome(
            sheet,
            existing,
            sheet.len() as int,
        ).2 == preview_outcome(sheet, existing, sheet.len() as int).0.len()),
{
    let n = sheet.len() as int;
    lemma_import_clean(sheet, existing, n);
    lemma_preview_clean(sheet, existing, n);
    if import_outcome(sheet, existing, n).0.len() == 0 {
        assert(fields_filled(sheet, n));
        assert forall|j: int|
            #![trigger sheet[j]]
            1 <= j < n && !is_blank_row(sheet[j]@) implies preview_row_errors(sheet, existing, j).len() == 0 by {
            assert(fields_filled(sheet, j));
            lemma_seen_agree(sheet, j);
            assert(import_row_error(sheet, existing, j) is None);
        }
    }
    if preview_outcome(sheet, existing, n).2 == preview_outcome(sheet, existing, n).0.len() {
        assert forall|j: int|
            #![trigger sheet[j]]
            1 <= j < n && !is_blank_row(sheet[j]@) implies cell_text(sheet[j]@, 0).len() > 0 && cell_text(sheet[j]@, 1).len() > 0 by {
            assert(preview_row_errors(sheet, existing, j).len() == 0);
        }
        assert(fields_filled(sheet, n));
        assert forall|j: int|
            #![trigger sheet[j]]
            1 <= j < n && !is_blank_row(sheet[j]@) implies import_row_error(sheet, existing, j) is None by {
            assert(fields_filled(sheet, j));
            lemma_seen_agree(sheet, j);
            assert(preview_row_errors(sheet, existing, j).len() == 0);
        }
    }
}
proof fn lemma_accepted_rows(sheet: Seq<Vec<String>>, existing: Seq<Seq<char>>, i: int)
    requires
        0 <= i <= sheet.len(),
    ensures
        ({
            let rows = import_outcome(sheet, existing, i).1;
            &&& forall|a: int| 0 <= a < rows.len() ==> import_seen(sheet, i).contains(#[trigger] rows[a].student_no)
            &&& forall|a: int| 0 <= a < rows.len() ==> !existing.contains(#[trigger] rows[a].student_no)
            &&& forall|a: int, b: int| 0 <= a < b < rows.len() ==> #[trigger] rows[a].student_no != #[trigger] rows[b].student_no
        }),
    decreases i,
{
    if i > 1 {
        lemma_accepted_rows(sheet, existing, i - 1);
        let k = i - 1;
        let prev_rows = import_outcome(sheet, existing, k).1;
        let seen_k = import_seen(sheet, k);
        let seen_i = import_seen(sheet, i);
        assert forall|x: Seq<char>| seen_k.contains(x) implies seen_i.contains(x) by {
            let t = choose|t: int| 0 <= t < seen_k.len() && seen_k[t] == x;
            if seen_i != seen_k {
                assert(seen_i == seen_k.push(cell_text(sheet[k]@, 0)));
                assert(seen_i[t] == x);
            }
        }
        if !is_blank_row(sheet[k]@) && import_row_error(sheet, existing, k) is None {
            let rows = import_outcome(sheet, existing, i).1;
            let no = cell_text(sheet[k]@, 0);
            assert(rows == prev_rows.push(row_view(sheet, k)));
            assert(seen_i == seen_k.push(no));
            assert(seen_i.contains(no)) by {
                assert(seen_i[seen_k.len() as int] == no);
            }
            assert forall|a: int, b: int| 0 <= a < b < rows.len() implies #[trigger] rows[a].student_no != #[trigger] rows[b].student_no by {
                if b == rows.len() - 1 {
                    assert(rows[a] == prev_rows[a]);
                    assert(seen_k.contains(prev_rows[a].student_no));
                    assert(!seen_k.contains(no));
                } else {
                    assert(rows[a] == prev_rows[a]);
                    assert(rows[b] == prev_rows[b]);
                }
            }
            assert forall|a: int| 0 <= a < rows.len() implies import_seen(sheet, i).contains(#[trigger] rows[a].student_no) by {
                if a < prev_rows.len() {
                    assert(rows[a] == prev_rows[a]);
                    assert(seen_k.contains(prev_rows[a].student_no));
                }
            }
            assert forall|a: int| 0 <= a < rows.len() implies !existing.contains(#[trigger] rows[a].student_no) by {
                if a < prev_rows.len() {
                    assert(rows[a] == prev_rows[a]);
                }
            }
        } else {
            let rows = import_outcome(sheet, existing, i).1;
            assert(rows == prev_rows);
            assert forall|a: int| 0 <= a < rows.len() implies import_seen(sheet, i).contains(#[trigger] rows[a].student_no) by {
                assert(seen_k.contains(prev_rows[a].student_no));
            }
        }
    }
}

/// The students an accepted import inserts have pairwise different student
/// numbers, none of which a student of the cohort already has: the batch
/// cannot break the uniqueness of student numbers within a cohort.
pub proof fn law_imported_numbers_are_new_and_distinct(sheet: Seq<Vec<String>>, existing: Seq<Seq<char>>)
    ensures
        ({
            let rows = import_outcome(sheet, existing, sheet.len() as int).1;
            &&& forall|a: int| 0 <= a < rows.len() ==> !existing.contains(#[trigger] rows[a].student_no)
            &&& forall|a: int, b: int| 0 <= a < b < rows.len() ==> #[trigger] rows[a].student_no != #[trigger] rows[b].student_no
        }),
{
    lemma_accepted_rows(sheet, existing, sheet.len() as int);
}
} // verus!
