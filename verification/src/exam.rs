use vstd::prelude::*;

use crate::membership::{belongs, find_first_false, first_false, lemma_first_false};
use crate::query::opt_view;
use crate::student::{cell_text, contains_text, row_prefix};
use crate::text::{decimal_int, push_decimal_i64, push_decimal_u64, push_str, trim, views};

verus! {

/// An exam of a cohort.
#[derive(Debug)]
pub struct Exam {
    pub id: i64,
    pub cohort_id: i64,
    pub name: String,
    pub exam_type: Option<String>,
    pub exam_date: Option<String>,
    pub remark: Option<String>,
    pub created_at: String,
    pub updated_at: String,
    pub deleted_at: Option<String>,
}

/// How the score cell of a sheet row reads as a number against the full
/// score of the exam's subject.
#[derive(Debug)]
pub enum ScoreReading {
    /// The text is not a number.
    NotANumber,
    /// A number outside `0..=full`, as it is shown to one decimal place.
    OutOfRange { shown: String },
    /// A number within `0..=full`.
    InRange,
}

/// A student of the cohort, as the score import looks students up.
#[derive(Debug)]
pub struct RosterEntry {
    pub student_no: String,
    pub id: i64,
    pub name: String,
}

/// Whether each roster entry has a student number other than `no`.
pub open spec fn roster_misses(roster: Seq<RosterEntry>, no: Seq<char>) -> Seq<bool> {
    roster.map_values(|e: RosterEntry| e.student_no@ != no)
}

/// The first roster entry with student number `no`, if any.
pub open spec fn roster_find(roster: Seq<RosterEntry>, no: Seq<char>) -> Option<int> {
    first_false(roster_misses(roster, no))
}

/// Whether sheet row `i` takes part in a score import: it is not the title
/// row, it has three cells, and a student number or a score.
pub open spec fn score_row_counts(sheet: Seq<Vec<String>>, i: int) -> bool {
    &&& i >= 1
    &&& sheet[i]@.len() >= 3
    &&& !(cell_text(sheet[i]@, 0).len() == 0 && cell_text(sheet[i]@, 2).len() == 0)
}

/// Whether row `i` reaches the check for a repeated student number: it has
/// a student number of the cohort and a score within range.
pub open spec fn score_row_reaches_repeat_check(
    sheet: Seq<Vec<String>>,
    readings: Seq<ScoreReading>,
    roster: Seq<RosterEntry>,
    i: int,
) -> bool {
    let no = cell_text(sheet[i]@, 0);
    &&& score_row_counts(sheet, i)
    &&& no.len() > 0
    &&& roster_find(roster, no) is Some
    &&& cell_text(sheet[i]@, 2).len() > 0
    &&& readings[i] is InRange
}

/// The student numbers registered before row `i`.
pub open spec fn score_seen(sheet: Seq<Vec<String>>, readings: Seq<ScoreReading>, roster: Seq<RosterEntry>, i: int) -> Seq<Seq<char>>
    decreases i,
{
    if i <= 1 {
        Seq::empty()
    } else {
        let prev = score_seen(sheet, readings, roster, i - 1);
        if score_row_reaches_repeat_check(sheet, readings, roster, i - 1) {
            prev.push(cell_text(sheet[i - 1]@, 0))
        } else {
            prev
        }
    }
}

/// One previewed row of a score import.
pub struct ScorePreviewView {
    pub row: nat,
    pub student_no: Seq<char>,
    pub student_name: Option<Seq<char>>,
    pub has_score: bool,
    pub valid: bool,
    pub warning: Option<Seq<char>>,
}

/// What one row contributes: its preview, its error, its warning, and the
/// student whose score it sets.
pub struct ScoreRowView {
    pub preview: ScorePreviewView,
    pub error: Option<Seq<char>>,
    pub warning: Option<Seq<char>>,
    pub student: Option<i64>,
}

/// A row that fails with message `e`.
pub open spec fn fail(pv: ScorePreviewView, e: Seq<char>) -> ScoreRowView {
    ScoreRowView { preview: pv, error: Some(e), warning: None, student: None }
}

/// What row `i` (which takes part in the import) contributes. `scored` holds
/// the students who already have a score, `full` the full score as shown.
pub open spec fn score_row(
    sheet: Seq<Vec<String>>,
    readings: Seq<ScoreReading>,
    roster: Seq<RosterEntry>,
    scored: Seq<i64>,
    full: Seq<char>,
    i: int,
) -> ScoreRowView {
    let r = sheet[i]@;
    let no = cell_text(r, 0);
    let name = cell_text(r, 1);
    let sc = cell_text(r, 2);
    let p = row_prefix((i + 1) as nat);
    let q = p + "学号 '"@ + no + "' "@;
    let base = ScorePreviewView {
        row: (i + 1) as nat,
        student_no: no,
        student_name: if name.len() == 0 {
            None
        } else {
            Some(name)
        },
        has_score: false,
        valid: false,
        warning: None,
    };
    if no.len() == 0 {
        fail(base, p + "学号为空"@)
    } else {
        match roster_find(roster, no) {
            None => fail(base, p + "学号 '"@ + no + "' 不属于当前届次或不存在"@),
            Some(j) => {
                let found = ScorePreviewView { student_name: Some(roster[j].name@), ..base };
                let id = roster[j].id;
                if sc.len() == 0 {
                    fail(found, q + "的分数为空"@)
                } else {
                    match readings[i] {
                        ScoreReading::NotANumber => fail(found, q + "的分数 '"@ + sc + "' 不是有效数字"@),
                        ScoreReading::OutOfRange { shown } => fail(
                            found,
                            q + "的分数 "@ + shown@ + " 超出有效范围 (0-"@ + full + ")"@,
                        ),
                        ScoreReading::InRange => {
                            let with_score = ScorePreviewView { has_score: true, ..found };
                            if score_seen(sheet, readings, roster, i).contains(no) {
                                fail(with_score, q + "在文件中重复出现"@)
                            } else {
                                let w: Option<Seq<char>> = if scored.contains(id) {
                                    Some(q + "已有成绩，导入后将覆盖"@)
                                } else {
                                    None
                                };
                                ScoreRowView {
                                    preview: ScorePreviewView { valid: true, warning: w, ..with_score },
                                    error: None,
                                    warning: w,
                                    student: Some(id),
                                }
                            }
                        },
                    }
                }
            },
        }
    }
}

/// The whole validation over the first `i` rows: previews, errors, warnings,
/// and the (student, sheet row) pairs whose scores are to be written.
pub open spec fn score_outcome(
    sheet: Seq<Vec<String>>,
    readings: Seq<ScoreReading>,
    roster: Seq<RosterEntry>,
    scored: Seq<i64>,
    full: Seq<char>,
    i: int,
) -> (Seq<ScorePreviewView>, Seq<Seq<char>>, Seq<Seq<char>>, Seq<(i64, int)>)
    decreases i,
{
    if i <= 1 {
        (Seq::empty(), Seq::empty(), Seq::empty(), Seq::empty())
    } else {
        let (pv, es, ws, vs) = score_outcome(sheet, readings, roster, scored, full, i - 1);
        let k = i - 1;
        if !score_row_counts(sheet, k) {
            (pv, es, ws, vs)
        } else {
            let r = score_row(sheet, readings, roster, scored, full, k);
            (
                pv.push(r.preview),
                match r.error {
                    Some(e) => es.push(e),
                    None => es,
                },
                match r.warning {
                    Some(w) => ws.push(w),
                    None => ws,
                },
                match r.student {
                    Some(id) => vs.push((id, k)),
                    None => vs,
                },
            )
        }
    }
}

/// A previewed row of a score import; the score itself is that of sheet row
/// `row - 1` where `has_score` holds.
#[derive(Debug)]
pub struct ScorePreviewRow {
    pub row: usize,
    pub student_no: String,
    pub student_name: Option<String>,
    pub has_score: bool,
    pub valid: bool,
    pub warning: Option<String>,
}

impl View for ScorePreviewRow {
    type V = ScorePreviewView;

    open spec fn view(&self) -> ScorePreviewView {
        ScorePreviewView {
            row: self.row as nat,
            student_no: self.student_no@,
            student_name: opt_view(self.student_name),
            has_score: self.has_score,
            valid: self.valid,
            warning: opt_view(self.warning),
        }
    }
}

/// The result of validating a score sheet. `valid_rows` pairs each student
/// whose score is to be written with the sheet row that holds the score.
#[derive(Debug)]
pub struct ScoreImportValidation {
    pub valid_rows: Vec<(i64, usize)>,
    pub preview_rows: Vec<ScorePreviewRow>,
    pub errors: Vec<String>,
    pub warnings: Vec<String>,
}

/// The views of previewed score rows.
pub open spec fn score_preview_views(v: Seq<ScorePreviewRow>) -> Seq<ScorePreviewView> {
    v.map_values(|r: ScorePreviewRow| r@)
}

/// The (student, row) pairs with rows as integers.
pub open spec fn valid_views(v: Seq<(i64, usize)>) -> Seq<(i64, int)> {
    v.map_values(|p: (i64, usize)| (p.0, p.1 as int))
}

/// The first roster entry with student number `no`.
fn find_in_roster(roster: &Vec<RosterEntry>, no: &str) -> (r: Option<usize>)
    ensures
        match r {
            Some(j) => j < roster.len() && roster_find(roster@, no@) == Some(j as int),
            None => roster_find(roster@, no@) is None,
        },
{
    let mut flags: Vec<bool> = Vec::new();
    let mut i: usize = 0;
    while i < roster.len()
        invariant
            i <= roster.len(),
            flags@ == roster_misses(roster@, no@).take(i as int),
        decreases roster.len() - i,
    {
        let same = crate::text::str_eq(roster[i].student_no.as_str(), no);
        flags.push(!same);
        proof {
            assert(roster_misses(roster@, no@).take(i + 1) =~= roster_misses(roster@, no@).take(i as int).push(
                roster@[i as int].student_no@ != no@,
            ));
        }
        i = i + 1;
    }
    proof {
        assert(roster_misses(roster@, no@).take(roster.len() as int) =~= roster_misses(roster@, no@));
    }
    find_first_false(&flags)
}

/// Whether `v` holds `x`.
fn contains_id(v: &Vec<i64>, x: i64) -> (r: bool)
    ensures
        r == v@.contains(x),
{
    let mut i: usize = 0;
    while i < v.len()
        invariant
            i <= v.len(),
            forall|j: int| 0 <= j < i ==> v@[j] != x,
        decreases v.len() - i,
    {
        if v[i] == x {
            proof {
                assert(v@[i as int] == x);
            }
            return true;
        }
        i = i + 1;
    }
    false
}

/// `第n行: 学号 'no' `.
fn about_student(n: usize, no: &str) -> (r: String)
    ensures
        r@ == row_prefix(n as nat) + "学号 '"@ + no@ + "' "@,
{
    let mut m = String::new();
    push_str(&mut m, "第");
    push_decimal_u64(&mut m, n as u64);
    push_str(&mut m, "行: ");
    push_str(&mut m, "学号 '");
    push_str(&mut m, no);
    push_str(&mut m, "' ");
    proof {
        assert(m@ =~= row_prefix(n as nat) + "学号 '"@ + no@ + "' "@);
    }
    m
}

/// What sheet row `i` contributes to a score import.
fn check_score_row(
    sheet: &Vec<Vec<String>>,
    readings: &Vec<ScoreReading>,
    roster: &Vec<RosterEntry>,
    scored: &Vec<i64>,
    full: &str,
    seen: &Vec<String>,
    i: usize,
) -> (r: (ScorePreviewRow, Option<String>, Option<String>, Option<i64>, bool))
    requires
        i < sheet.len(),
        readings.len() == sheet.len(),
        score_row_counts(sheet@, i as int),
        views(seen@) == score_seen(sheet@, readings@, roster@, i as int),
    ensures
        ({
            let v = score_row(sheet@, readings@, roster@, scored@, full@, i as int);
            &&& r.0@ == v.preview
            &&& opt_view(r.1) == v.error
            &&& opt_view(r.2) == v.warning
            &&& r.3 == v.student
            &&& r.4 == score_row_reaches_repeat_check(sheet@, readings@, roster@, i as int)
        }),
{
    let row = &sheet[i];
    let n = i + 1;
    let no = trim(row[0].as_str());
    let name = trim(row[1].as_str());
    let sc = trim(row[2].as_str());
    let mut pv = ScorePreviewRow {
        row: n,
        student_no: no.clone(),
        student_name: if name.as_str().is_empty() {
            None
        } else {
            Some(name)
        },
        has_score: false,
        valid: false,
        warning: None,
    };
    if no.as_str().is_empty() {
        let mut m = String::new();
        push_str(&mut m, "第");
        push_decimal_u64(&mut m, n as u64);
        push_str(&mut m, "行: ");
        push_str(&mut m, "学号为空");
        proof {
            assert(m@ =~= row_prefix(n as nat) + "学号为空"@);
        }
        return (pv, Some(m), None, None, false);
    }
    let found = find_in_roster(roster, no.as_str());
    let j = match found {
        None => {
            let mut m = String::new();
            push_str(&mut m, "第");
            push_decimal_u64(&mut m, n as u64);
            push_str(&mut m, "行: ");
            push_str(&mut m, "学号 '");
            push_str(&mut m, no.as_str());
            push_str(&mut m, "' 不属于当前届次或不存在");
            proof {
                assert(m@ =~= row_prefix(n as nat) + "学号 '"@ + no@ + "' 不属于当前届次或不存在"@);
            }
            return (pv, Some(m), None, None, false);
        },
        Some(j) => j,
    };
    pv.student_name = Some(roster[j].name.clone());
    let id = roster[j].id;
    let q = about_student(n, no.as_str());
    if sc.as_str().is_empty() {
        let mut m = q;
        push_str(&mut m, "的分数为空");
        return (pv, Some(m), None, None, false);
    }
    match &readings[i] {
        ScoreReading::NotANumber => {
            let mut m = q;
            push_str(&mut m, "的分数 '");
            push_str(&mut m, sc.as_str());
            push_str(&mut m, "' 不是有效数字");
            proof {
                assert(m@ =~= row_prefix(n as nat) + "学号 '"@ + no@ + "' "@ + "的分数 '"@ + sc@ + "' 不是有效数字"@);
            }
            return (pv, Some(m), None, None, false);
        },
        ScoreReading::OutOfRange { shown } => {
            let mut m = q;
            push_str(&mut m, "的分数 ");
            push_str(&mut m, shown.as_str());
            push_str(&mut m, " 超出有效范围 (0-");
            push_str(&mut m, full);
            push_str(&mut m, ")");
            proof {
                assert(m@ =~= row_prefix(n as nat) + "学号 '"@ + no@ + "' "@ + "的分数 "@ + shown@ + " 超出有效范围 (0-"@ + full@ + ")"@);
            }
            return (pv, Some(m), None, None, false);
        },
        ScoreReading::InRange => {},
    }
    pv.has_score = true;
    if contains_text(seen, no.as_str()) {
        let mut m = q;
        push_str(&mut m, "在文件中重复出现");
        return (pv, Some(m), None, None, true);
    }
    let warning = if contains_id(scored, id) {
        let mut m = q;
        push_str(&mut m, "已有成绩，导入后将覆盖");
        Some(m)
    } else {
        None
    };
    pv.valid = true;
    pv.warning = warning.clone();
    (pv, None, warning, Some(id), true)
}

/// Validates a score sheet for one exam and subject without writing
/// anything. `readings[i]` says how the score cell of sheet row `i` reads as
/// a number, `roster` lists the cohort's students that are not deleted,
/// `scored` the students who already have a score, and `full` is the full
/// score as shown in messages. The import writes the scores of `valid_rows`
/// only when `errors` is empty.
pub fn validate_score_sheet(
    sheet: &Vec<Vec<String>>,
    readings: &Vec<ScoreReading>,
    roster: &Vec<RosterEntry>,
    scored: &Vec<i64>,
    full: &str,
) -> (r: ScoreImportValidation)
    requires
        readings.len() == sheet.len(),
    ensures
        ({
            let (pv, es, ws, vs) = score_outcome(sheet@, readings@, roster@, scored@, full@, sheet.len() as int);
            &&& score_preview_views(r.preview_rows@) == pv
            &&& views(r.errors@) == es
            &&& views(r.warnings@) == ws
            &&& valid_views(r.valid_rows@) == vs
        }),
{
    let mut valid_rows: Vec<(i64, usize)> = Vec::new();
    let mut preview_rows: Vec<ScorePreviewRow> = Vec::new();
    let mut errors: Vec<String> = Vec::new();
    let mut warnings: Vec<String> = Vec::new();
    let mut seen: Vec<String> = Vec::new();
    if sheet.len() == 0 {
        return ScoreImportValidation { valid_rows, preview_rows, errors, warnings };
    }
    let ghost sh = sheet@;
    let ghost rd = readings@;
    let ghost ro = roster@;
    let ghost sd = scored@;
    proof {
        assert(score_preview_views(preview_rows@) =~= Seq::<ScorePreviewView>::empty());
        assert(views(errors@) =~= Seq::<Seq<char>>::empty());
        assert(views(warnings@) =~= Seq::<Seq<char>>::empty());
        assert(valid_views(valid_rows@) =~= Seq::<(i64, int)>::empty());
        assert(views(seen@) =~= Seq::<Seq<char>>::empty());
    }
    let mut i: usize = 1;
    while i < sheet.len()
        invariant
            1 <= i <= sheet.len(),
            readings.len() == sheet.len(),
            sh == sheet@,
            rd == readings@,
            ro == roster@,
            sd == scored@,
            views(seen@) == score_seen(sh, rd, ro, i as int),
            score_preview_views(preview_rows@) == score_outcome(sh, rd, ro, sd, full@, i as int).0,
            views(errors@) == score_outcome(sh, rd, ro, sd, full@, i as int).1,
            views(warnings@) == score_outcome(sh, rd, ro, sd, full@, i as int).2,
            valid_views(valid_rows@) == score_outcome(sh, rd, ro, sd, full@, i as int).3,
        decreases sheet.len() - i,
    {
        let ghost k = i as int;
        let ghost before = score_outcome(sh, rd, ro, sd, full@, k);
        let ghost seen_before = views(seen@);
        let row = &sheet[i];
        let counts = row.len() >= 3 && !(trim(row[0].as_str()).as_str().is_empty() && trim(
            row[2].as_str(),
        ).as_str().is_empty());
        if counts {
            let (pv, err, warn, student, reached) = check_score_row(sheet, readings, roster, scored, full, &seen, i);
            let ghost v = score_row(sh, rd, ro, sd, full@, k);
            preview_rows.push(pv);
            proof {
                assert(score_preview_views(preview_rows@) =~= before.0.push(v.preview));
            }
            match err {
                Some(e) => {
                    errors.push(e);
                    proof {
                        assert(views(errors@) =~= before.1.push(v.error.unwrap()));
                    }
                },
                None => {},
            }
            match warn {
                Some(w) => {
                    warnings.push(w);
                    proof {
                        assert(views(warnings@) =~= before.2.push(v.warning.unwrap()));
                    }
                },
                None => {},
            }
            match student {
                Some(id) => {
                    valid_rows.push((id, i));
                    proof {
                        assert(valid_views(valid_rows@) =~= before.3.push((id, k)));
                    }
                },
                None => {},
            }
            if reached {
                let no = trim(row[0].as_str());
                seen.push(no);
                proof {
                    assert(score_row_reaches_repeat_check(sh, rd, ro, k));
                    assert(views(seen@) =~= seen_before.push(cell_text(sh[k]@, 0)));
                }
            } else {
                proof {
                    assert(views(seen@) =~= seen_before);
                }
            }
        }
        i = i + 1;
    }
    ScoreImportValidation { valid_rows, preview_rows, errors, warnings }
}

/// What a score import writes: where any sheet row is wrong, nothing, and the
/// errors are reported; otherwise the (student, sheet row) pairs of the
/// validation. The warnings are reported either way.
pub fn plan_score_import(v: ScoreImportValidation) -> (r: (Result<Vec<(i64, usize)>, Vec<String>>, Vec<String>))
    ensures
        r.1@ == v.warnings@,
        v.errors@.len() == 0 <==> r.0 is Ok,
        r.0 matches Ok(rows) ==> rows@ == v.valid_rows@,
        r.0 matches Err(e) ==> e@ == v.errors@,
{
    let ScoreImportValidation { valid_rows, preview_rows: _, errors, warnings } = v;
    if errors.len() == 0 {
        (Ok(valid_rows), warnings)
    } else {
        (Err(errors), warnings)
    }
}

/// Whether each score of a batch may be saved: its student belongs to the
/// exam's cohort and its value is within range.
pub open spec fn score_batch_flags(cohort_id: i64, owners: Seq<Option<i64>>, out_of_range: Seq<bool>) -> Seq<bool> {
    Seq::new(owners.len(), |j: int| belongs(owners[j], cohort_id) && !out_of_range[j])
}

/// Why a batch of scores cannot be saved, or `None`: the first score whose
/// student is not a member of the exam's cohort, or whose value lies outside
/// `0..=full` (`full` as shown in messages).
pub open spec fn score_batch_refusal(
    cohort_id: i64,
    student_ids: Seq<i64>,
    owners: Seq<Option<i64>>,
    out_of_range: Seq<bool>,
    full: Seq<char>,
) -> Option<Seq<char>> {
    match first_false(score_batch_flags(cohort_id, owners, out_of_range)) {
        None => None,
        Some(j) => if !belongs(owners[j], cohort_id) {
            Some("学生 ID "@ + decimal_int(student_ids[j] as int) + " 不属于考试所属届次"@)
        } else {
            Some("学生 ID "@ + decimal_int(student_ids[j] as int) + " 的成绩超出有效范围 (0-"@ + full + ")"@)
        },
    }
}

/// Decides whether a batch of scores may be saved; `owners[j]` is the cohort
/// of student `j` (`None` when it does not exist or is deleted) and
/// `out_of_range[j]` whether its score lies outside `0..=full`.
pub fn check_score_batch(
    cohort_id: i64,
    student_ids: &Vec<i64>,
    owners: &Vec<Option<i64>>,
    out_of_range: &Vec<bool>,
    full: &str,
) -> (r: Result<(), String>)
    requires
        owners.len() == student_ids.len(),
        out_of_range.len() == student_ids.len(),
    ensures
        match r {
            Ok(_) => score_batch_refusal(cohort_id, student_ids@, owners@, out_of_range@, full@) is None,
            Err(e) => score_batch_refusal(cohort_id, student_ids@, owners@, out_of_range@, full@) == Some(e@),
        },
{
    let ghost want = score_batch_flags(cohort_id, owners@, out_of_range@);
    let mut flags: Vec<bool> = Vec::new();
    let mut i: usize = 0;
    while i < owners.len()
        invariant
            i <= owners.len(),
            owners.len() == out_of_range.len(),
            want == score_batch_flags(cohort_id, owners@, out_of_range@),
            flags@ == want.take(i as int),
        decreases owners.len() - i,
    {
        let member = match owners[i] {
            Some(c) => c == cohort_id,
            None => false,
        };
        flags.push(member && !out_of_range[i]);
        proof {
            assert(want.take(i + 1) =~= want.take(i as int).push(want[i as int]));
        }
        i = i + 1;
    }
    proof {
        assert(want.take(owners.len() as int) =~= want);
    }
    match find_first_false(&flags) {
        None => Ok(()),
        Some(j) => {
            let mut m = String::new();
            push_str(&mut m, "学生 ID ");
            push_decimal_i64(&mut m, student_ids[j]);
            let member = match owners[j] {
                Some(c) => c == cohort_id,
                None => false,
            };
            if !member {
                push_str(&mut m, " 不属于考试所属届次");
                proof {
                    assert(m@ =~= "学生 ID "@ + decimal_int(student_ids@[j as int] as int) + " 不属于考试所属届次"@);
                }
            } else {
                push_str(&mut m, " 的成绩超出有效范围 (0-");
                push_str(&mut m, full);
                push_str(&mut m, ")");
                proof {
                    assert(m@ =~= "学生 ID "@ + decimal_int(student_ids@[j as int] as int) + " 的成绩超出有效范围 (0-"@ + full@ + ")"@);
                }
            }
            Err(m)
        },
    }
}
/// The student number of sheet row `k`.
pub open spec fn row_number_text(sheet: Seq<Vec<String>>, k: int) -> Seq<char> {
    cell_text(sheet[k]@, 0)
}

proof fn lemma_scored_rows(
    sheet: Seq<Vec<String>>,
    readings: Seq<ScoreReading>,
    roster: Seq<RosterEntry>,
    scored: Seq<i64>,
    full: Seq<char>,
    i: int,
)
    requires
        0 <= i <= sheet.len(),
        readings.len() == sheet.len(),
    ensures
        ({
            let vs = score_outcome(sheet, readings, roster, scored, full, i).3;
            &&& forall|a: int| 0 <= a < vs.len() ==> 1 <= #[trigger] vs[a].1 < i
            &&& forall|a: int| 0 <= a < vs.len() ==> score_seen(sheet, readings, roster, i).contains(
                row_number_text(sheet, #[trigger] vs[a].1),
            )
            &&& forall|a: int| 0 <= a < vs.len() ==> roster_find(roster, row_number_text(sheet, #[trigger] vs[a].1)) is Some
                && vs[a].0 == roster[roster_find(roster, row_number_text(sheet, vs[a].1)).unwrap()].id
            &&& forall|a: int, b: int| 0 <= a < b < vs.len() ==> row_number_text(sheet, #[trigger] vs[a].1)
                != row_number_text(sheet, #[trigger] vs[b].1)
        }),
    decreases i,
{
    if i > 1 {
        lemma_scored_rows(sheet, readings, roster, scored, full, i - 1);
        let k = i - 1;
        let prev = score_outcome(sheet, readings, roster, scored, full, k).3;
        let vs = score_outcome(sheet, readings, roster, scored, full, i).3;
        let seen_k = score_seen(sheet, readings, roster, k);
        let seen_i = score_seen(sheet, readings, roster, i);
        assert forall|x: Seq<char>| seen_k.contains(x) implies seen_i.contains(x) by {
            let t = choose|t: int| 0 <= t < seen_k.len() && seen_k[t] == x;
            if seen_i != seen_k {
                assert(seen_i[t] == x);
            }
        }
        if score_row_counts(sheet, k) && score_row(sheet, readings, roster, scored, full, k).student is Some {
            let no = row_number_text(sheet, k);
            let id = score_row(sheet, readings, roster, scored, full, k).student.unwrap();
            assert(vs == prev.push((id, k)));
            assert(score_row_reaches_repeat_check(sheet, readings, roster, k));
            assert(seen_i == seen_k.push(no));
            assert(!seen_k.contains(no));
            assert(seen_i[seen_k.len() as int] == no);
            assert forall|a: int| 0 <= a < vs.len() implies score_seen(sheet, readings, roster, i).contains(
                row_number_text(sheet, #[trigger] vs[a].1),
            ) by {
                if a < prev.len() {
                    assert(vs[a] == prev[a]);
                }
            }
            assert forall|a: int, b: int| 0 <= a < b < vs.len() implies row_number_text(sheet, #[trigger] vs[a].1)
                != row_number_text(sheet, #[trigger] vs[b].1) by {
                assert(vs[a] == prev[a]);
                if b < prev.len() {
                    assert(vs[b] == prev[b]);
                } else {
                    assert(seen_k.contains(row_number_text(sheet, prev[a].1)));
                }
            }
            assert forall|a: int| 0 <= a < vs.len() implies roster_find(roster, row_number_text(sheet, #[trigger] vs[a].1)) is Some
                && vs[a].0 == roster[roster_find(roster, row_number_text(sheet, vs[a].1)).unwrap()].id by {
                if a < prev.len() {
                    assert(vs[a] == prev[a]);
                }
            }
            assert forall|a: int| 0 <= a < vs.len() implies 1 <= #[trigger] vs[a].1 < i by {
                if a < prev.len() {
                    assert(vs[a] == prev[a]);
                }
            }
        } else {
            assert(vs == prev);
            assert forall|a: int| 0 <= a < vs.len() implies score_seen(sheet, readings, roster, i).contains(
                row_number_text(sheet, #[trigger] vs[a].1),
            ) by {
                assert(seen_k.contains(row_number_text(sheet, prev[a].1)));
            }
        }
    }
}

/// An accepted score sheet sets at most one score per student: the rows
/// whose scores are written carry pairwise different student numbers, and,
/// where no two students of the roster share an id, pairwise different
/// students.
pub proof fn law_each_student_scored_once(
    sheet: Seq<Vec<String>>,
    readings: Seq<ScoreReading>,
    roster: Seq<RosterEntry>,
    scored: Seq<i64>,
    full: Seq<char>,
)
    requires
        readings.len() == sheet.len(),
    ensures
        ({
            let vs = score_outcome(sheet, readings, roster, scored, full, sheet.len() as int).3;
            &&& forall|a: int, b: int| 0 <= a < b < vs.len() ==> row_number_text(sheet, #[trigger] vs[a].1)
                != row_number_text(sheet, #[trigger] vs[b].1)
            &&& (forall|p: int, q: int| 0 <= p < q < roster.len() ==> #[trigger] roster[p].id != #[trigger] roster[q].id)
                ==> forall|a: int, b: int| 0 <= a < b < vs.len() ==> #[trigger] vs[a].0 != #[trigger] vs[b].0
        }),
{
    let n = sheet.len() as int;
    lemma_scored_rows(sheet, readings, roster, scored, full, n);
    let vs = score_outcome(sheet, readings, roster, scored, full, n).3;
    if forall|p: int, q: int| 0 <= p < q < roster.len() ==> #[trigger] roster[p].id != #[trigger] roster[q].id {
        assert forall|a: int, b: int| 0 <= a < b < vs.len() implies #[trigger] vs[a].0 != #[trigger] vs[b].0 by {
            let na = row_number_text(sheet, vs[a].1);
            let nb = row_number_text(sheet, vs[b].1);
            let ja = roster_find(roster, na).unwrap();
            let jb = roster_find(roster, nb).unwrap();
            lemma_first_false(roster_misses(roster, na));
            lemma_first_false(roster_misses(roster, nb));
            assert(!roster_misses(roster, na)[ja]);
            assert(!roster_misses(roster, nb)[jb]);
            assert(roster[ja].student_no@ == na);
            assert(roster[jb].student_no@ == nb);
            assert(ja != jb);
            if ja < jb {
                assert(roster[ja].id != roster[jb].id);
            } else {
                assert(roster[jb].id != roster[ja].id);
            }
        }
    }
}
/// Score `j` of a batch may be saved: its student is a member of the cohort
/// and its value is within range.
pub open spec fn score_acceptable(cohort_id: i64, owners: Seq<Option<i64>>, out_of_range: Seq<bool>, j: int) -> bool {
    owners[j] == Some(cohort_id) && !out_of_range[j]
}

/// A batch of scores is saved exactly when every student of it is a member of
/// the exam's cohort and every score is within range; otherwise nothing is.
pub proof fn law_score_batch_saved_only_when_all_valid(
    cohort_id: i64,
    student_ids: Seq<i64>,
    owners: Seq<Option<i64>>,
    out_of_range: Seq<bool>,
    full: Seq<char>,
)
    requires
        owners.len() == student_ids.len(),
        out_of_range.len() == student_ids.len(),
    ensures
        score_batch_refusal(cohort_id, student_ids, owners, out_of_range, full) is None <==> (forall|j: int|
            0 <= j < student_ids.len() ==> #[trigger] score_acceptable(cohort_id, owners, out_of_range, j)),
{
    let flags = score_batch_flags(cohort_id, owners, out_of_range);
    lemma_first_false(flags);
    if first_false(flags) is Some {
        let j = first_false(flags).unwrap();
        assert(!flags[j]);
        assert(!score_acceptable(cohort_id, owners, out_of_range, j));
    } else {
        assert forall|j: int| 0 <= j < student_ids.len() implies #[trigger] score_acceptable(cohort_id, owners, out_of_range, j) by {
            assert(flags[j]);
        }
    }
}

} // verus!
