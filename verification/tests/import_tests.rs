use class_copilot::exam::{plan_score_import, validate_score_sheet, RosterEntry, ScoreReading};
use class_copilot::student::{plan_student_import, preview_student_import};

fn sheet(rows: &[&[&str]]) -> Vec<Vec<String>> {
    let mut out = vec![vec!["学号".to_string(), "姓名".to_string(), "性别".to_string()]];
    for r in rows {
        out.push(r.iter().map(|c| c.to_string()).collect());
    }
    out
}

#[test]
fn test_student_import_7column_mapping() {
    let s = sheet(&[&["Z001", "张小明", "男", "13800001111", "张父", "13900002222", "火箭组"]]);
    let rows = plan_student_import(&s, &vec![]).expect("a clean sheet is accepted");
    assert_eq!(rows.len(), 1);
    let r = &rows[0];
    assert_eq!(r.row, 2);
    assert_eq!(r.student_no, "Z001");
    assert_eq!(r.name, "张小明");
    assert_eq!(r.gender.as_deref(), Some("男"));
    assert_eq!(r.phone.as_deref(), Some("13800001111"));
    assert_eq!(r.parent_name.as_deref(), Some("张父"));
    assert_eq!(r.parent_phone.as_deref(), Some("13900002222"));
    assert_eq!(r.group_name.as_deref(), Some("火箭组"));
}

#[test]
fn test_atomic_import_all_or_nothing() {
    let s = sheet(&[&["N001", "新1", "", "", "", "", ""], &["EXIST", "新2", "", "", "", "", ""]]);
    let existing = vec!["EXIST".to_string()];
    let errors = plan_student_import(&s, &existing).expect_err("an existing number refuses the batch");
    assert!(errors.len() >= 1);
    assert_eq!(errors, vec!["第3行: 学号 'EXIST' 在当前届次已存在".to_string()]);
}

#[test]
fn test_detect_duplicate_student_no_in_batch() {
    let s = sheet(&[
        &["S001", "张三", "", "", "", "", ""],
        &["S002", "李四", "", "", "", "", ""],
        &["S001", "张三副本", "", "", "", "", ""],
        &["S003", "王五", "", "", "", "", ""],
    ]);
    let preview = preview_student_import(&s, &vec![]);
    assert_eq!(preview.errors.len(), 1);
    assert!(preview.errors[0].contains("S001"));
    assert_eq!(preview.errors[0], "第4行: 学号'S001'在文件中重复出现");
    assert_eq!(preview.rows.len(), 4);
    assert_eq!(preview.valid_rows, 3);
    assert!(!preview.rows[2].valid);
}

#[test]
fn import_reports_every_kind_of_wrong_row_in_order() {
    let s = sheet(&[
        &["", "无学号"],
        &["A1", ""],
        &["A2", "甲", "男"],
        &["A2", "乙"],
        &["A3", "丙", "未知"],
        &["A4", "丁"],
        &["", ""],
        &["  A5  ", " 戊 ", " 女 "],
    ]);
    let existing = vec!["A4".to_string()];
    let errors = plan_student_import(&s, &existing).unwrap_err();
    assert_eq!(
        errors,
        vec![
            "第2行: 学号为空".to_string(),
            "第3行: 姓名为空".to_string(),
            "第5行: 学号 'A2' 在文件中重复出现".to_string(),
            "第6行: 性别 '未知' 无效，只允许 '男' 或 '女'".to_string(),
            "第7行: 学号 'A4' 在当前届次已存在".to_string(),
        ]
    );
}

#[test]
fn import_trims_cells_and_skips_blank_rows() {
    let s = sheet(&[&["  A5  ", " 戊 ", " 女 ", "  "], &[" ", "\t"], &["A6", "己"]]);
    let rows = plan_student_import(&s, &vec![]).unwrap();
    assert_eq!(rows.len(), 2);
    assert_eq!(rows[0].student_no, "A5");
    assert_eq!(rows[0].name, "戊");
    assert_eq!(rows[0].gender.as_deref(), Some("女"));
    assert_eq!(rows[0].phone, None);
    assert_eq!(rows[1].row, 4);
    assert_eq!(rows[1].gender, None);
}

#[test]
fn import_of_title_row_only_accepts_nothing() {
    let rows = plan_student_import(&sheet(&[]), &vec![]).unwrap();
    assert!(rows.is_empty());
    let rows = plan_student_import(&vec![], &vec![]).unwrap();
    assert!(rows.is_empty());
}

#[test]
fn preview_collects_all_errors_of_a_row() {
    let s = sheet(&[&["B1", "甲"], &["B1", "", "其他"], &["", "乙"]]);
    let existing = vec!["B1".to_string()];
    let p = preview_student_import(&s, &existing);
    assert_eq!(
        p.errors,
        vec![
            "第2行: 学号'B1'已在数据库中存在".to_string(),
            "第3行: 姓名为空, 学号'B1'在文件中重复出现, 性别'其他'无效, 学号'B1'已在数据库中存在".to_string(),
            "第4行: 学号为空".to_string(),
        ]
    );
    assert_eq!(p.valid_rows, 0);
    assert_eq!(p.rows[1].errors.len(), 4);
}

#[test]
fn preview_and_import_agree_on_a_clean_and_a_wrong_sheet() {
    let clean = sheet(&[&["C1", "甲"], &["C2", "乙", "女"]]);
    let p = preview_student_import(&clean, &vec![]);
    assert_eq!(p.valid_rows, p.rows.len());
    assert!(plan_student_import(&clean, &vec![]).is_ok());

    let wrong = sheet(&[&["C1", "甲"], &["C1", "乙"]]);
    let p = preview_student_import(&wrong, &vec![]);
    assert!(p.valid_rows < p.rows.len());
    assert!(plan_student_import(&wrong, &vec![]).is_err());
}

fn roster() -> Vec<RosterEntry> {
    vec![
        RosterEntry { student_no: "SC001".to_string(), id: 11, name: "张三".to_string() },
        RosterEntry { student_no: "SC002".to_string(), id: 12, name: "李四".to_string() },
    ]
}

#[test]
fn test_e2e_score_import_rankings_and_trend() {
    let s = sheet(&[&["SC001", "张三", "110"], &["SC002", "李四", "92"]]);
    let readings = vec![ScoreReading::InRange, ScoreReading::InRange, ScoreReading::InRange];
    let v = validate_score_sheet(&s, &readings, &roster(), &vec![], "120.0");
    assert_eq!(v.valid_rows.len(), 2);
    assert!(v.errors.is_empty());
    assert_eq!(v.valid_rows, vec![(11, 1), (12, 2)]);
    let ranks = class_copilot::ranking::competition_ranks(&vec![110, 92]);
    assert_eq!(ranks[0], 1);
}

#[test]
fn score_sheet_reports_each_failure() {
    let s = sheet(&[
        &["", "无名", "80"],
        &["X9", "外人", "80"],
        &["SC001", "张三", ""],
        &["SC001", "张三", "abc"],
        &["SC001", "张三", "130"],
        &["SC001", "张三", "100"],
        &["SC001", "张三", "90"],
        &["SC002", "", "60"],
        &["", "", ""],
        &["SC002"],
    ]);
    let readings = vec![
        ScoreReading::InRange,
        ScoreReading::InRange,
        ScoreReading::InRange,
        ScoreReading::NotANumber,
        ScoreReading::NotANumber,
        ScoreReading::OutOfRange { shown: "130.0".to_string() },
        ScoreReading::InRange,
        ScoreReading::InRange,
        ScoreReading::InRange,
        ScoreReading::InRange,
        ScoreReading::InRange,
    ];
    let v = validate_score_sheet(&s, &readings, &roster(), &vec![12], "120.0");
    assert_eq!(
        v.errors,
        vec![
            "第2行: 学号为空".to_string(),
            "第3行: 学号 'X9' 不属于当前届次或不存在".to_string(),
            "第4行: 学号 'SC001' 的分数为空".to_string(),
            "第5行: 学号 'SC001' 的分数 'abc' 不是有效数字".to_string(),
            "第6行: 学号 'SC001' 的分数 130.0 超出有效范围 (0-120.0)".to_string(),
            "第8行: 学号 'SC001' 在文件中重复出现".to_string(),
        ]
    );
    assert_eq!(v.warnings, vec!["第9行: 学号 'SC002' 已有成绩，导入后将覆盖".to_string()]);
    assert_eq!(v.valid_rows, vec![(11, 6), (12, 8)]);
    assert_eq!(v.preview_rows.len(), 8);
    assert_eq!(v.preview_rows[1].student_name.as_deref(), Some("外人"));
    assert_eq!(v.preview_rows[2].student_name.as_deref(), Some("张三"));
    assert!(v.preview_rows[5].valid && v.preview_rows[5].has_score);
    assert!(!v.preview_rows[6].valid && v.preview_rows[6].has_score);
    assert_eq!(v.preview_rows[7].student_name.as_deref(), Some("李四"));
    assert!(v.preview_rows[7].warning.is_some());
}

#[test]
fn score_import_writes_nothing_when_a_row_is_wrong() {
    let good = sheet(&[&["SC001", "张三", "110"], &["SC002", "李四", "92"]]);
    let readings = vec![ScoreReading::InRange, ScoreReading::InRange, ScoreReading::InRange];
    let v = validate_score_sheet(&good, &readings, &roster(), &vec![12], "120.0");
    let (plan, warnings) = plan_score_import(v);
    assert_eq!(plan.unwrap(), vec![(11, 1), (12, 2)]);
    assert_eq!(warnings, vec!["第3行: 学号 'SC002' 已有成绩，导入后将覆盖".to_string()]);

    let bad = sheet(&[&["SC001", "张三", "110"], &["X9", "外人", "92"]]);
    let v = validate_score_sheet(&bad, &readings, &roster(), &vec![], "120.0");
    let (plan, warnings) = plan_score_import(v);
    assert_eq!(plan.unwrap_err(), vec!["第3行: 学号 'X9' 不属于当前届次或不存在".to_string()]);
    assert!(warnings.is_empty());
}
