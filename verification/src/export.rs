use vstd::prelude::*;

use crate::text::{push_str, views};

verus! {

/// How many records of each kind a cohort export holds.
#[derive(Debug)]
pub struct ExportCounts {
    pub students: i64,
    pub homeworks: i64,
    pub homework_records: i64,
    pub attendance: i64,
    pub exams: i64,
    pub scores: i64,
    pub notices: i64,
    pub duties: i64,
    pub behaviors: i64,
    pub exam_subject_configs: i64,
    pub class_fees: i64,
}

/// `[e]` where `cond` holds, otherwise nothing.
pub open spec fn entry_if(cond: bool, e: Seq<char>) -> Seq<Seq<char>> {
    if cond {
        seq![e]
    } else {
        Seq::empty()
    }
}

/// The entries of a cohort export archive, in the order they are written:
/// students and homework always; each homework attachment that exists; the
/// homework records, attendance, exams, scores, subject settings of the
/// exams, notices, duties, behaviour records and class fees where there are
/// any (records, scores and subject settings only where there is homework or
/// an exam); then the metadata and the summary workbook.
pub open spec fn export_entries(c: ExportCounts, attachments: Seq<Seq<char>>) -> Seq<Seq<char>> {
    seq!["students.json"@, "homeworks.json"@] + attachments.map_values(|a: Seq<char>| "attachments/homework/"@ + a)
        + entry_if(c.homeworks > 0 && c.homework_records > 0, "homework_records.json"@)
        + entry_if(c.attendance > 0, "attendance.json"@)
        + entry_if(c.exams > 0, "exams.json"@)
        + entry_if(c.exams > 0 && c.scores > 0, "scores.json"@)
        + entry_if(c.exams > 0 && c.exam_subject_configs > 0, "exam_subject_configs.json"@)
        + entry_if(c.notices > 0, "notices.json"@)
        + entry_if(c.duties > 0, "duties.json"@)
        + entry_if(c.behaviors > 0, "behavior_records.json"@)
        + entry_if(c.class_fees > 0, "class_fee.json"@)
        + seq!["metadata.json"@, "export_summary.xlsx"@]
}

fn owned(s: &str) -> (r: String)
    ensures
        r@ == s@,
{
    let mut m = String::new();
    push_str(&mut m, s);
    proof {
        assert(m@ =~= s@);
    }
    m
}

fn push_if(v: &mut Vec<String>, cond: bool, e: &str)
    ensures
        views(final(v)@) == views(old(v)@) + entry_if(cond, e@),
{
    let ghost before = views(v@);
    if cond {
        v.push(owned(e));
        proof {
            assert(views(v@) =~= before + entry_if(cond, e@));
        }
    } else {
        proof {
            assert(views(v@) =~= before + entry_if(cond, e@));
        }
    }
}

/// The entries of a cohort export archive; `attachments` names the homework
/// attachments that exist on disk.
pub fn cohort_export_entries(c: &ExportCounts, attachments: &Vec<String>) -> (r: Vec<String>)
    ensures
        views(r@) == export_entries(*c, views(attachments@)),
{
    let mut v: Vec<String> = Vec::new();
    v.push(owned("students.json"));
    v.push(owned("homeworks.json"));
    let ghost head = seq!["students.json"@, "homeworks.json"@];
    proof {
        assert(views(v@) =~= head);
    }
    let mut i: usize = 0;
    while i < attachments.len()
        invariant
            i <= attachments.len(),
            views(v@) == head + views(attachments@).take(i as int).map_values(
                |a: Seq<char>| "attachments/homework/"@ + a,
            ),
        decreases attachments.len() - i,
    {
        let mut e = String::new();
        push_str(&mut e, "attachments/homework/");
        push_str(&mut e, attachments[i].as_str());
        let ghost before = views(v@);
        v.push(e);
        proof {
            assert(views(v@) =~= before.push(e@));
            assert(views(v@) =~= head + views(attachments@).take(i + 1).map_values(
                |a: Seq<char>| "attachments/homework/"@ + a,
            ));
        }
        i = i + 1;
    }
    proof {
        assert(views(attachments@).take(attachments.len() as int) =~= views(attachments@));
    }
    push_if(&mut v, c.homeworks > 0 && c.homework_records > 0, "homework_records.json");
    push_if(&mut v, c.attendance > 0, "attendance.json");
    push_if(&mut v, c.exams > 0, "exams.json");
    push_if(&mut v, c.exams > 0 && c.scores > 0, "scores.json");
    push_if(&mut v, c.exams > 0 && c.exam_subject_configs > 0, "exam_subject_configs.json");
    push_if(&mut v, c.notices > 0, "notices.json");
    push_if(&mut v, c.duties > 0, "duties.json");
    push_if(&mut v, c.behaviors > 0, "behavior_records.json");
    push_if(&mut v, c.class_fees > 0, "class_fee.json");
    push_if(&mut v, true, "metadata.json");
    push_if(&mut v, true, "export_summary.xlsx");
    proof {
        assert(views(v@) =~= export_entries(*c, views(attachments@)));
    }
    v
}

/// The rows of the export summary sheet: a label and a count each.
pub open spec fn summary_rows(c: ExportCounts, attachments: int) -> Seq<(Seq<char>, int)> {
    seq![
        ("学生数量"@, c.students as int),
        ("作业数量"@, c.homeworks as int),
        ("作业记录数量"@, c.homework_records as int),
        ("考勤记录数量"@, c.attendance as int),
        ("考试数量"@, c.exams as int),
        ("成绩记录数量"@, c.scores as int),
        ("通知数量"@, c.notices as int),
        ("值日数量"@, c.duties as int),
        ("奖惩数量"@, c.behaviors as int),
        ("附件数量"@, attachments),
    ]
}

/// The views of labelled counts.
pub open spec fn labelled_views(v: Seq<(String, i64)>) -> Seq<(Seq<char>, int)> {
    v.map_values(|p: (String, i64)| (p.0@, p.1 as int))
}

/// The rows of the export summary sheet, `attachments` being the number of
/// attachments written.
pub fn export_summary_rows(c: &ExportCounts, attachments: i64) -> (r: Vec<(String, i64)>)
    ensures
        labelled_views(r@) == summary_rows(*c, attachments as int),
{
    let mut v: Vec<(String, i64)> = Vec::new();
    v.push((owned("学生数量"), c.students));
    v.push((owned("作业数量"), c.homeworks));
    v.push((owned("作业记录数量"), c.homework_records));
    v.push((owned("考勤记录数量"), c.attendance));
    v.push((owned("考试数量"), c.exams));
    v.push((owned("成绩记录数量"), c.scores));
    v.push((owned("通知数量"), c.notices));
    v.push((owned("值日数量"), c.duties));
    v.push((owned("奖惩数量"), c.behaviors));
    v.push((owned("附件数量"), attachments));
    proof {
        assert(labelled_views(v@) =~= summary_rows(*c, attachments as int));
    }
    v
}

/// `cohort_name class_name`, the title of an exported cohort.
pub fn cohort_title(cohort_name: &str, class_name: &str) -> (r: String)
    ensures
        r@ == cohort_name@ + " "@ + class_name@,
{
    let mut m = String::new();
    push_str(&mut m, cohort_name);
    push_str(&mut m, " ");
    push_str(&mut m, class_name);
    proof {
        assert(m@ =~= cohort_name@ + " "@ + class_name@);
    }
    m
}

proof fn lemma_contains_add(a: Seq<Seq<char>>, b: Seq<Seq<char>>, z: Seq<char>)
    ensures
        (a.contains(z) || b.contains(z)) ==> (a + b).contains(z),
{
    if a.contains(z) {
        let i = choose|i: int| 0 <= i < a.len() && a[i] == z;
        assert((a + b)[i] == z);
    } else if b.contains(z) {
        let i = choose|i: int| 0 <= i < b.len() && b[i] == z;
        assert((a + b)[a.len() + i] == z);
    }
}

/// Every kind of record that a cohort holds goes into its export: the
/// students, the homework, the metadata and the summary always; each homework
/// attachment; and each other kind of record whenever there is any of it
/// (records of homework and scores and subject settings of exams where there
/// is homework or an exam), whatever the other counts.
pub proof fn law_export_holds_every_kind(c: ExportCounts, attachments: Seq<Seq<char>>)
    ensures
        export_entries(c, attachments).contains("students.json"@),
        export_entries(c, attachments).contains("homeworks.json"@),
        export_entries(c, attachments).contains("metadata.json"@),
        export_entries(c, attachments).contains("export_summary.xlsx"@),
        c.homeworks > 0 && c.homework_records > 0 ==> export_entries(c, attachments).contains("homework_records.json"@),
        c.attendance > 0 ==> export_entries(c, attachments).contains("attendance.json"@),
        c.exams > 0 ==> export_entries(c, attachments).contains("exams.json"@),
        c.exams > 0 && c.scores > 0 ==> export_entries(c, attachments).contains("scores.json"@),
        c.exams > 0 && c.exam_subject_configs > 0 ==> export_entries(c, attachments).contains("exam_subject_configs.json"@),
        c.notices > 0 ==> export_entries(c, attachments).contains("notices.json"@),
        c.duties > 0 ==> export_entries(c, attachments).contains("duties.json"@),
        c.behaviors > 0 ==> export_entries(c, attachments).contains("behavior_records.json"@),
        c.class_fees > 0 ==> export_entries(c, attachments).contains("class_fee.json"@),
        forall|i: int| 0 <= i < attachments.len() ==> export_entries(c, attachments).contains("attachments/homework/"@ + #[trigger] attachments[i]),
{
    let head = seq!["students.json"@, "homeworks.json"@];
    let m = attachments.map_values(|a: Seq<char>| "attachments/homework/"@ + a);
    let hr = entry_if(c.homeworks > 0 && c.homework_records > 0, "homework_records.json"@);
    let at = entry_if(c.attendance > 0, "attendance.json"@);
    let ex = entry_if(c.exams > 0, "exams.json"@);
    let sc = entry_if(c.exams > 0 && c.scores > 0, "scores.json"@);
    let sub = entry_if(c.exams > 0 && c.exam_subject_configs > 0, "exam_subject_configs.json"@);
    let no = entry_if(c.notices > 0, "notices.json"@);
    let du = entry_if(c.duties > 0, "duties.json"@);
    let be = entry_if(c.behaviors > 0, "behavior_records.json"@);
    let cf = entry_if(c.class_fees > 0, "class_fee.json"@);
    let tail = seq!["metadata.json"@, "export_summary.xlsx"@];
    let q1 = head;
    let q2 = head + m;
    let q3 = head + m + hr;
    let q4 = head + m + hr + at;
    let q5 = head + m + hr + at + ex;
    let q6 = head + m + hr + at + ex + sc;
    let q7 = head + m + hr + at + ex + sc + sub;
    let q8 = head + m + hr + at + ex + sc + sub + no;
    let q9 = head + m + hr + at + ex + sc + sub + no + du;
    let q10 = head + m + hr + at + ex + sc + sub + no + du + be;
    let q11 = head + m + hr + at + ex + sc + sub + no + du + be + cf;
    let q12 = head + m + hr + at + ex + sc + sub + no + du + be + cf + tail;
    assert(export_entries(c, attachments) == q12);
    assert(head[0] == "students.json"@ && head[1] == "homeworks.json"@);
    {
        lemma_contains_add(q1, m, "students.json"@);
        lemma_contains_add(q2, hr, "students.json"@);
        lemma_contains_add(q3, at, "students.json"@);
        lemma_contains_add(q4, ex, "students.json"@);
        lemma_contains_add(q5, sc, "students.json"@);
        lemma_contains_add(q6, sub, "students.json"@);
        lemma_contains_add(q7, no, "students.json"@);
        lemma_contains_add(q8, du, "students.json"@);
        lemma_contains_add(q9, be, "students.json"@);
        lemma_contains_add(q10, cf, "students.json"@);
        lemma_contains_add(q11, tail, "students.json"@);
        lemma_contains_add(q1, m, "homeworks.json"@);
        lemma_contains_add(q2, hr, "homeworks.json"@);
        lemma_contains_add(q3, at, "homeworks.json"@);
        lemma_contains_add(q4, ex, "homeworks.json"@);
        lemma_contains_add(q5, sc, "homeworks.json"@);
        lemma_contains_add(q6, sub, "homeworks.json"@);
        lemma_contains_add(q7, no, "homeworks.json"@);
        lemma_contains_add(q8, du, "homeworks.json"@);
        lemma_contains_add(q9, be, "homeworks.json"@);
        lemma_contains_add(q10, cf, "homeworks.json"@);
        lemma_contains_add(q11, tail, "homeworks.json"@);
    }
    if c.homeworks > 0 && c.homework_records > 0 {
        assert(hr[0] == "homework_records.json"@);
        lemma_contains_add(q2, hr, "homework_records.json"@);
        lemma_contains_add(q3, at, "homework_records.json"@);
        lemma_contains_add(q4, ex, "homework_records.json"@);
        lemma_contains_add(q5, sc, "homework_records.json"@);
        lemma_contains_add(q6, sub, "homework_records.json"@);
        lemma_contains_add(q7, no, "homework_records.json"@);
        lemma_contains_add(q8, du, "homework_records.json"@);
        lemma_contains_add(q9, be, "homework_records.json"@);
        lemma_contains_add(q10, cf, "homework_records.json"@);
        lemma_contains_add(q11, tail, "homework_records.json"@);
    }
    if c.attendance > 0 {
        assert(at[0] == "attendance.json"@);
        lemma_contains_add(q3, at, "attendance.json"@);
        lemma_contains_add(q4, ex, "attendance.json"@);
        lemma_contains_add(q5, sc, "attendance.json"@);
        lemma_contains_add(q6, sub, "attendance.json"@);
        lemma_contains_add(q7, no, "attendance.json"@);
        lemma_contains_add(q8, du, "attendance.json"@);
        lemma_contains_add(q9, be, "attendance.json"@);
        lemma_contains_add(q10, cf, "attendance.json"@);
        lemma_contains_add(q11, tail, "attendance.json"@);
    }
    if c.exams > 0 {
        assert(ex[0] == "exams.json"@);
        lemma_contains_add(q4, ex, "exams.json"@);
        lemma_contains_add(q5, sc, "exams.json"@);
        lemma_contains_add(q6, sub, "exams.json"@);
        lemma_contains_add(q7, no, "exams.json"@);
        lemma_contains_add(q8, du, "exams.json"@);
        lemma_contains_add(q9, be, "exams.json"@);
        lemma_contains_add(q10, cf, "exams.json"@);
        lemma_contains_add(q11, tail, "exams.json"@);
    }
    if c.exams > 0 && c.scores > 0 {
        assert(sc[0] == "scores.json"@);
        lemma_contains_add(q5, sc, "scores.json"@);
        lemma_contains_add(q6, sub, "scores.json"@);
        lemma_contains_add(q7, no, "scores.json"@);
        lemma_contains_add(q8, du, "scores.json"@);
        lemma_contains_add(q9, be, "scores.json"@);
        lemma_contains_add(q10, cf, "scores.json"@);
        lemma_contains_add(q11, tail, "scores.json"@);
    }
    if c.exams > 0 && c.exam_subject_configs > 0 {
        assert(sub[0] == "exam_subject_configs.json"@);
        lemma_contains_add(q6, sub, "exam_subject_configs.json"@);
        lemma_contains_add(q7, no, "exam_subject_configs.json"@);
        lemma_contains_add(q8, du, "exam_subject_configs.json"@);
        lemma_contains_add(q9, be, "exam_subject_configs.json"@);
        lemma_contains_add(q10, cf, "exam_subject_configs.json"@);
        lemma_contains_add(q11, tail, "exam_subject_configs.json"@);
    }
    if c.notices > 0 {
        assert(no[0] == "notices.json"@);
        lemma_contains_add(q7, no, "notices.json"@);
        lemma_contains_add(q8, du, "notices.json"@);
        lemma_contains_add(q9, be, "notices.json"@);
        lemma_contains_add(q10, cf, "notices.json"@);
        lemma_contains_add(q11, tail, "notices.json"@);
    }
    if c.duties > 0 {
        assert(du[0] == "duties.json"@);
        lemma_contains_add(q8, du, "duties.json"@);
        lemma_contains_add(q9, be, "duties.json"@);
        lemma_contains_add(q10, cf, "duties.json"@);
        lemma_contains_add(q11, tail, "duties.json"@);
    }
    if c.behaviors > 0 {
        assert(be[0] == "behavior_records.json"@);
        lemma_contains_add(q9, be, "behavior_records.json"@);
        lemma_contains_add(q10, cf, "behavior_records.json"@);
        lemma_contains_add(q11, tail, "behavior_records.json"@);
    }
    if c.class_fees > 0 {
        assert(cf[0] == "class_fee.json"@);
        lemma_contains_add(q10, cf, "class_fee.json"@);
        lemma_contains_add(q11, tail, "class_fee.json"@);
    }
    assert(tail[0] == "metadata.json"@ && tail[1] == "export_summary.xlsx"@);
    lemma_contains_add(q11, tail, "metadata.json"@);
    lemma_contains_add(q11, tail, "export_summary.xlsx"@);
    assert forall|i: int| 0 <= i < attachments.len() implies #[trigger] export_entries(c, attachments).contains("attachments/homework/"@ + attachments[i]) by {
        let z = "attachments/homework/"@ + attachments[i];
        assert(m[i] == z);
        lemma_contains_add(head, m, z);
            lemma_contains_add(q2, hr, z);
            lemma_contains_add(q3, at, z);
            lemma_contains_add(q4, ex, z);
            lemma_contains_add(q5, sc, z);
            lemma_contains_add(q6, sub, z);
            lemma_contains_add(q7, no, z);
            lemma_contains_add(q8, du, z);
            lemma_contains_add(q9, be, z);
            lemma_contains_add(q10, cf, z);
            lemma_contains_add(q11, tail, z);
    }
}

proof fn lemma_contains_split(a: Seq<Seq<char>>, b: Seq<Seq<char>>, z: Seq<char>)
    ensures
        (a + b).contains(z) ==> a.contains(z) || b.contains(z),
{
    if (a + b).contains(z) {
        let i = choose|i: int| 0 <= i < (a + b).len() && (a + b)[i] == z;
        if i < a.len() {
            assert(a[i] == z);
        } else {
            assert(b[i - a.len()] == z);
        }
    }
}

proof fn lemma_export_entry_kinds(c: ExportCounts, attachments: Seq<Seq<char>>, z: Seq<char>)
    requires
        export_entries(c, attachments).contains(z),
    ensures
        z == "students.json"@
        || z == "homeworks.json"@
        || z == "metadata.json"@
        || z == "export_summary.xlsx"@
        || ((c.homeworks > 0 && c.homework_records > 0) && z == "homework_records.json"@)
        || ((c.attendance > 0) && z == "attendance.json"@)
        || ((c.exams > 0) && z == "exams.json"@)
        || ((c.exams > 0 && c.scores > 0) && z == "scores.json"@)
        || ((c.exams > 0 && c.exam_subject_configs > 0) && z == "exam_subject_configs.json"@)
        || ((c.notices > 0) && z == "notices.json"@)
        || ((c.duties > 0) && z == "duties.json"@)
        || ((c.behaviors > 0) && z == "behavior_records.json"@)
        || ((c.class_fees > 0) && z == "class_fee.json"@)
        || (exists|i: int| 0 <= i < attachments.len() && z == "attachments/homework/"@ + #[trigger] attachments[i]),
{
    let head = seq!["students.json"@, "homeworks.json"@];
    let m = attachments.map_values(|a: Seq<char>| "attachments/homework/"@ + a);
    let hr = entry_if(c.homeworks > 0 && c.homework_records > 0, "homework_records.json"@);
    let at = entry_if(c.attendance > 0, "attendance.json"@);
    let ex = entry_if(c.exams > 0, "exams.json"@);
    let sc = entry_if(c.exams > 0 && c.scores > 0, "scores.json"@);
    let sub = entry_if(c.exams > 0 && c.exam_subject_configs > 0, "exam_subject_configs.json"@);
    let no = entry_if(c.notices > 0, "notices.json"@);
    let du = entry_if(c.duties > 0, "duties.json"@);
    let be = entry_if(c.behaviors > 0, "behavior_records.json"@);
    let cf = entry_if(c.class_fees > 0, "class_fee.json"@);
    let tail = seq!["metadata.json"@, "export_summary.xlsx"@];
    let q1 = head;
    let q2 = head + m;
    let q3 = head + m + hr;
    let q4 = head + m + hr + at;
    let q5 = head + m + hr + at + ex;
    let q6 = head + m + hr + at + ex + sc;
    let q7 = head + m + hr + at + ex + sc + sub;
    let q8 = head + m + hr + at + ex + sc + sub + no;
    let q9 = head + m + hr + at + ex + sc + sub + no + du;
    let q10 = head + m + hr + at + ex + sc + sub + no + du + be;
    let q11 = head + m + hr + at + ex + sc + sub + no + du + be + cf;
    let q12 = head + m + hr + at + ex + sc + sub + no + du + be + cf + tail;
    assert(export_entries(c, attachments) == q12);
    lemma_contains_split(q11, tail, z);
    lemma_contains_split(q10, cf, z);
    lemma_contains_split(q9, be, z);
    lemma_contains_split(q8, du, z);
    lemma_contains_split(q7, no, z);
    lemma_contains_split(q6, sub, z);
    lemma_contains_split(q5, sc, z);
    lemma_contains_split(q4, ex, z);
    lemma_contains_split(q3, at, z);
    lemma_contains_split(q2, hr, z);
    lemma_contains_split(q1, m, z);
    if m.contains(z) {
        let i = choose|i: int| 0 <= i < m.len() && m[i] == z;
        assert(z == "attachments/homework/"@ + attachments[i]);
    }
}

/// Each conditional file of a cohort export is there only when its counts
/// say there is something to write: no file of an empty kind of record.
pub proof fn law_export_holds_no_empty_kind(c: ExportCounts, attachments: Seq<Seq<char>>)
    ensures
        export_entries(c, attachments).contains("homework_records.json"@) ==> c.homeworks > 0 && c.homework_records > 0,
        export_entries(c, attachments).contains("attendance.json"@) ==> c.attendance > 0,
        export_entries(c, attachments).contains("exams.json"@) ==> c.exams > 0,
        export_entries(c, attachments).contains("scores.json"@) ==> c.exams > 0 && c.scores > 0,
        export_entries(c, attachments).contains("exam_subject_configs.json"@) ==> c.exams > 0 && c.exam_subject_configs > 0,
        export_entries(c, attachments).contains("notices.json"@) ==> c.notices > 0,
        export_entries(c, attachments).contains("duties.json"@) ==> c.duties > 0,
        export_entries(c, attachments).contains("behavior_records.json"@) ==> c.behaviors > 0,
        export_entries(c, attachments).contains("class_fee.json"@) ==> c.class_fees > 0,
{
    reveal_strlit("students.json");
    reveal_strlit("homeworks.json");
    reveal_strlit("metadata.json");
    reveal_strlit("export_summary.xlsx");
    reveal_strlit("homework_records.json");
    reveal_strlit("attendance.json");
    reveal_strlit("exams.json");
    reveal_strlit("scores.json");
    reveal_strlit("exam_subject_configs.json");
    reveal_strlit("notices.json");
    reveal_strlit("duties.json");
    reveal_strlit("behavior_records.json");
    reveal_strlit("class_fee.json");
    reveal_strlit("attachments/homework/");
    if export_entries(c, attachments).contains("homework_records.json"@) {
        lemma_export_entry_kinds(c, attachments, "homework_records.json"@);
        assert("homework_records.json"@.len() != "students.json"@.len());
        assert("homework_records.json"@.len() != "homeworks.json"@.len());
        assert("homework_records.json"@.len() != "metadata.json"@.len());
        assert("homework_records.json"@.len() != "export_summary.xlsx"@.len());
        assert("homework_records.json"@.len() != "attendance.json"@.len());
        assert("homework_records.json"@.len() != "exams.json"@.len());
        assert("homework_records.json"@.len() != "scores.json"@.len());
        assert("homework_records.json"@.len() != "exam_subject_configs.json"@.len());
        assert("homework_records.json"@.len() != "notices.json"@.len());
        assert("homework_records.json"@.len() != "duties.json"@.len());
        assert("homework_records.json"@[0] != "behavior_records.json"@[0]);
        assert("homework_records.json"@.len() != "class_fee.json"@.len());
        assert forall|i: int| 0 <= i < attachments.len() implies "homework_records.json"@ != "attachments/homework/"@ + #[trigger] attachments[i] by {
            let t = "attachments/homework/"@ + attachments[i];
            assert(t[0] == 'a' && t[3] == 'a');
        }
    }
    if export_entries(c, attachments).contains("attendance.json"@) {
        lemma_export_entry_kinds(c, attachments, "attendance.json"@);
        assert("attendance.json"@.len() != "students.json"@.len());
        assert("attendance.json"@.len() != "homeworks.json"@.len());
        assert("attendance.json"@.len() != "metadata.json"@.len());
        assert("attendance.json"@.len() != "export_summary.xlsx"@.len());
        assert("attendance.json"@.len() != "homework_records.json"@.len());
        assert("attendance.json"@.len() != "exams.json"@.len());
        assert("attendance.json"@.len() != "scores.json"@.len());
        assert("attendance.json"@.len() != "exam_subject_configs.json"@.len());
        assert("attendance.json"@.len() != "notices.json"@.len());
        assert("attendance.json"@.len() != "duties.json"@.len());
        assert("attendance.json"@.len() != "behavior_records.json"@.len());
        assert("attendance.json"@.len() != "class_fee.json"@.len());
        assert forall|i: int| 0 <= i < attachments.len() implies "attendance.json"@ != "attachments/homework/"@ + #[trigger] attachments[i] by {
            let t = "attachments/homework/"@ + attachments[i];
            assert(t[0] == 'a' && t[3] == 'a');
        }
    }
    if export_entries(c, attachments).contains("exams.json"@) {
        lemma_export_entry_kinds(c, attachments, "exams.json"@);
        assert("exams.json"@.len() != "students.json"@.len());
        assert("exams.json"@.len() != "homeworks.json"@.len());
        assert("exams.json"@.len() != "metadata.json"@.len());
        assert("exams.json"@.len() != "export_summary.xlsx"@.len());
        assert("exams.json"@.len() != "homework_records.json"@.len());
        assert("exams.json"@.len() != "attendance.json"@.len());
        assert("exams.json"@.len() != "scores.json"@.len());
        assert("exams.json"@.len() != "exam_subject_configs.json"@.len());
        assert("exams.json"@.len() != "notices.json"@.len());
        assert("exams.json"@.len() != "duties.json"@.len());
        assert("exams.json"@.len() != "behavior_records.json"@.len());
        assert("exams.json"@.len() != "class_fee.json"@.len());
        assert forall|i: int| 0 <= i < attachments.len() implies "exams.json"@ != "attachments/homework/"@ + #[trigger] attachments[i] by {
            let t = "attachments/homework/"@ + attachments[i];
            assert(t[0] == 'a' && t[3] == 'a');
        }
    }
    if export_entries(c, attachments).contains("scores.json"@) {
        lemma_export_entry_kinds(c, attachments, "scores.json"@);
        assert("scores.json"@.len() != "students.json"@.len());
        assert("scores.json"@.len() != "homeworks.json"@.len());
        assert("scores.json"@.len() != "metadata.json"@.len());
        assert("scores.json"@.len() != "export_summary.xlsx"@.len());
        assert("scores.json"@.len() != "homework_records.json"@.len());
        assert("scores.json"@.len() != "attendance.json"@.len());
        assert("scores.json"@.len() != "exams.json"@.len());
        assert("scores.json"@.len() != "exam_subject_configs.json"@.len());
        assert("scores.json"@.len() != "notices.json"@.len());
        assert("scores.json"@[0] != "duties.json"@[0]);
        assert("scores.json"@.len() != "behavior_records.json"@.len());
        assert("scores.json"@.len() != "class_fee.json"@.len());
        assert forall|i: int| 0 <= i < attachments.len() implies "scores.json"@ != "attachments/homework/"@ + #[trigger] attachments[i] by {
            let t = "attachments/homework/"@ + attachments[i];
            assert(t[0] == 'a' && t[3] == 'a');
        }
    }
    if export_entries(c, attachments).contains("exam_subject_configs.json"@) {
        lemma_export_entry_kinds(c, attachments, "exam_subject_configs.json"@);
        assert("exam_subject_configs.json"@.len() != "students.json"@.len());
        assert("exam_subject_configs.json"@.len() != "homeworks.json"@.len());
        assert("exam_subject_configs.json"@.len() != "metadata.json"@.len());
        assert("exam_subject_configs.json"@.len() != "export_summary.xlsx"@.len());
        assert("exam_subject_configs.json"@.len() != "homework_records.json"@.len());
        assert("exam_subject_configs.json"@.len() != "attendance.json"@.len());
        assert("exam_subject_configs.json"@.len() != "exams.json"@.len());
        assert("exam_subject_configs.json"@.len() != "scores.json"@.len());
        assert("exam_subject_configs.json"@.len() != "notices.json"@.len());
        assert("exam_subject_configs.json"@.len() != "duties.json"@.len());
        assert("exam_subject_configs.json"@.len() != "behavior_records.json"@.len());
        assert("exam_subject_configs.json"@.len() != "class_fee.json"@.len());
        assert forall|i: int| 0 <= i < attachments.len() implies "exam_subject_configs.json"@ != "attachments/homework/"@ + #[trigger] attachments[i] by {
            let t = "attachments/homework/"@ + attachments[i];
            assert(t[0] == 'a' && t[3] == 'a');
        }
    }
    if export_entries(c, attachments).contains("notices.json"@) {
        lemma_export_entry_kinds(c, attachments, "notices.json"@);
        assert("notices.json"@.len() != "students.json"@.len());
        assert("notices.json"@.len() != "homeworks.json"@.len());
        assert("notices.json"@.len() != "metadata.json"@.len());
        assert("notices.json"@.len() != "export_summary.xlsx"@.len());
        assert("notices.json"@.len() != "homework_records.json"@.len());
        assert("notices.json"@.len() != "attendance.json"@.len());
        assert("notices.json"@.len() != "exams.json"@.len());
        assert("notices.json"@.len() != "scores.json"@.len());
        assert("notices.json"@.len() != "exam_subject_configs.json"@.len());
        assert("notices.json"@.len() != "duties.json"@.len());
        assert("notices.json"@.len() != "behavior_records.json"@.len());
        assert("notices.json"@.len() != "class_fee.json"@.len());
        assert forall|i: int| 0 <= i < attachments.len() implies "notices.json"@ != "attachments/homework/"@ + #[trigger] attachments[i] by {
            let t = "attachments/homework/"@ + attachments[i];
            assert(t[0] == 'a' && t[3] == 'a');
        }
    }
    if export_entries(c, attachments).contains("duties.json"@) {
        lemma_export_entry_kinds(c, attachments, "duties.json"@);
        assert("duties.json"@.len() != "students.json"@.len());
        assert("duties.json"@.len() != "homeworks.json"@.len());
        assert("duties.json"@.len() != "metadata.json"@.len());
        assert("duties.json"@.len() != "export_summary.xlsx"@.len());
        assert("duties.json"@.len() != "homework_records.json"@.len());
        assert("duties.json"@.len() != "attendance.json"@.len());
        assert("duties.json"@.len() != "exams.json"@.len());
        assert("duties.json"@[0] != "scores.json"@[0]);
        assert("duties.json"@.len() != "exam_subject_configs.json"@.len());
        assert("duties.json"@.len() != "notices.json"@.len());
        assert("duties.json"@.len() != "behavior_records.json"@.len());
        assert("duties.json"@.len() != "class_fee.json"@.len());
        assert forall|i: int| 0 <= i < attachments.len() implies "duties.json"@ != "attachments/homework/"@ + #[trigger] attachments[i] by {
            let t = "attachments/homework/"@ + attachments[i];
            assert(t[0] == 'a' && t[3] == 'a');
        }
    }
    if export_entries(c, attachments).contains("behavior_records.json"@) {
        lemma_export_entry_kinds(c, attachments, "behavior_records.json"@);
        assert("behavior_records.json"@.len() != "students.json"@.len());
        assert("behavior_records.json"@.len() != "homeworks.json"@.len());
        assert("behavior_records.json"@.len() != "metadata.json"@.len());
        assert("behavior_records.json"@.len() != "export_summary.xlsx"@.len());
        assert("behavior_records.json"@[0] != "homework_records.json"@[0]);
        assert("behavior_records.json"@.len() != "attendance.json"@.len());
        assert("behavior_records.json"@.len() != "exams.json"@.len());
        assert("behavior_records.json"@.len() != "scores.json"@.len());
        assert("behavior_records.json"@.len() != "exam_subject_configs.json"@.len());
        assert("behavior_records.json"@.len() != "notices.json"@.len());
        assert("behavior_records.json"@.len() != "duties.json"@.len());
        assert("behavior_records.json"@.len() != "class_fee.json"@.len());
        assert forall|i: int| 0 <= i < attachments.len() implies "behavior_records.json"@ != "attachments/homework/"@ + #[trigger] attachments[i] by {
            let t = "attachments/homework/"@ + attachments[i];
            assert(t[0] == 'a' && t[3] == 'a');
        }
    }
    if export_entries(c, attachments).contains("class_fee.json"@) {
        lemma_export_entry_kinds(c, attachments, "class_fee.json"@);
        assert("class_fee.json"@.len() != "students.json"@.len());
        assert("class_fee.json"@[0] != "homeworks.json"@[0]);
        assert("class_fee.json"@.len() != "metadata.json"@.len());
        assert("class_fee.json"@.len() != "export_summary.xlsx"@.len());
        assert("class_fee.json"@.len() != "homework_records.json"@.len());
        assert("class_fee.json"@.len() != "attendance.json"@.len());
        assert("class_fee.json"@.len() != "exams.json"@.len());
        assert("class_fee.json"@.len() != "scores.json"@.len());
        assert("class_fee.json"@.len() != "exam_subject_configs.json"@.len());
        assert("class_fee.json"@.len() != "notices.json"@.len());
        assert("class_fee.json"@.len() != "duties.json"@.len());
        assert("class_fee.json"@.len() != "behavior_records.json"@.len());
        assert forall|i: int| 0 <= i < attachments.len() implies "class_fee.json"@ != "attachments/homework/"@ + #[trigger] attachments[i] by {
            let t = "attachments/homework/"@ + attachments[i];
            assert(t[0] == 'a' && t[3] == 'a');
        }
    }
}

/// The export summary counts each kind of record under its own label, and the
/// attachments written, in ten rows.
pub proof fn law_summary_counts(c: ExportCounts, attachments: int)
    ensures
        summary_rows(c, attachments).len() == 10,
        summary_rows(c, attachments).contains(("学生数量"@, c.students as int)),
        summary_rows(c, attachments).contains(("作业数量"@, c.homeworks as int)),
        summary_rows(c, attachments).contains(("作业记录数量"@, c.homework_records as int)),
        summary_rows(c, attachments).contains(("考勤记录数量"@, c.attendance as int)),
        summary_rows(c, attachments).contains(("考试数量"@, c.exams as int)),
        summary_rows(c, attachments).contains(("成绩记录数量"@, c.scores as int)),
        summary_rows(c, attachments).contains(("通知数量"@, c.notices as int)),
        summary_rows(c, attachments).contains(("值日数量"@, c.duties as int)),
        summary_rows(c, attachments).contains(("奖惩数量"@, c.behaviors as int)),
        summary_rows(c, attachments).contains(("附件数量"@, attachments)),
{
    let r = summary_rows(c, attachments);
    assert(r[0] == ("学生数量"@, c.students as int));
    assert(r[1] == ("作业数量"@, c.homeworks as int));
    assert(r[2] == ("作业记录数量"@, c.homework_records as int));
    assert(r[3] == ("考勤记录数量"@, c.attendance as int));
    assert(r[4] == ("考试数量"@, c.exams as int));
    assert(r[5] == ("成绩记录数量"@, c.scores as int));
    assert(r[6] == ("通知数量"@, c.notices as int));
    assert(r[7] == ("值日数量"@, c.duties as int));
    assert(r[8] == ("奖惩数量"@, c.behaviors as int));
    assert(r[9] == ("附件数量"@, attachments));
}

} // verus!
