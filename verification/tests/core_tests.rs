use class_copilot::backup::{
    attach_backup_sql, check_backup_content, check_integrity_report, check_manifest_format,
    check_package_checksum, check_row_counts, check_tables_present, column_list, escape_sql_literal,
    import_table_sql, is_sqlite_header, is_zip_header, quote_ident, sha256_hex, shared_columns,
    backup_file_verdict, suffix_from_elapsed, unique_suffix, vacuum_into_sql, verify_legacy_checksum, BackupError,
};
use class_copilot::cohort::{check_cohort_readonly, new_cohort_is_current, Cohort, CohortError, CohortRegistry, NewCohort};
use class_copilot::query::{
    build_affair_where, build_attendance_where, build_cohort_query, build_fee_where, build_homework_where,
    build_student_where, like_pattern, paging_suffix, resolve_page,
};
use class_copilot::restore::{restore_start, restore_step, RestoreAction, RestoreEvent, RestorePhase};
use class_copilot::ranking::{competition_ranks, rank_scores};
use class_copilot::tables::{get_delete_order, get_insert_order, get_required_tables, Table};
use class_copilot::text::{contains_str, i64_to_string, join_strings, trim};

fn cohort(id: i64, name: &str, status: &str, current: bool) -> Cohort {
    Cohort {
        id,
        cohort_name: name.to_string(),
        class_name: format!("{}班", id),
        grade_name: None,
        school_name: None,
        head_teacher: None,
        admission_year: None,
        graduation_year: None,
        semester: None,
        status: status.to_string(),
        is_current: current,
        archive_time: None,
        remark: None,
        created_at: "2025-01-01 00:00:00".to_string(),
        updated_at: "2025-01-01 00:00:00".to_string(),
    }
}

#[test]
fn text_helpers() {
    assert_eq!(trim("\u{3000} 张三\t\n"), "张三");
    assert_eq!(i64_to_string(-120), "-120");
    assert_eq!(i64_to_string(i64::MIN), i64::MIN.to_string());
    assert_eq!(join_strings(&vec!["a".to_string(), "b".to_string(), "c".to_string()], " AND "), "a AND b AND c");
    assert!(contains_str("UNIQUE constraint failed", "UNIQUE"));
    assert!(!contains_str("unique", "UNIQUE"));
    assert!(contains_str("x", ""));
}

#[test]
fn affair_where_numbers_parameters() {
    let (w, p) = build_affair_where("n", 3, Some("会".to_string()), Some(8), Some("奖励".to_string()), None, 1);
    assert_eq!(w, "n.cohort_id = ?1 AND (n.title LIKE ?2 OR n.content LIKE ?2) AND n.student_id = ?3 AND n.type = ?4");
    assert_eq!(p, vec!["3".to_string(), "%会%".to_string(), "8".to_string(), "奖励".to_string()]);
    let (w, p) = build_affair_where("d", 5, None, None, None, Some("2025-01-01".to_string()), 1);
    assert_eq!(w, "d.cohort_id = ?1");
    assert_eq!(p, vec!["5".to_string()]);
}

#[test]
fn list_queries() {
    let (w, p, next) = build_student_where(2, Some("张".to_string()), Some("男".to_string()), None, Some("正常".to_string()));
    assert_eq!(w, "cohort_id = ?1 AND deleted_at IS NULL AND (name LIKE ?2 OR student_no LIKE ?2) AND gender = ?3 AND status = ?4");
    assert_eq!(p, vec!["2", "%张%", "男", "正常"]);
    assert_eq!(next, 5);
    assert_eq!(paging_suffix(next), " LIMIT ?5 OFFSET ?6");
    let (w, _, next) = build_homework_where(2, None, Some(4));
    assert_eq!(w, "h.cohort_id = ?1 AND h.deleted_at IS NULL AND h.subject_id = ?2");
    assert_eq!(next, 3);
    let (w, p, _) = build_attendance_where(2, Some("2025-01-01".to_string()), None, Some(9), None);
    assert_eq!(w, "a.cohort_id = ?1 AND a.attendance_date >= ?2 AND a.student_id = ?3");
    assert_eq!(p, vec!["2", "2025-01-01", "9"]);
    let (w, _, _) = build_fee_where(2, Some("收入".to_string()), None, Some("欠费".to_string()));
    assert_eq!(w, "f.cohort_id = ?1 AND f.deleted_at IS NULL AND f.fee_type = ?2 AND f.payment_status = ?3");
    let (q, p) = build_cohort_query(Some("2026".to_string()), None);
    assert_eq!(q, "SELECT * FROM cohort WHERE 1=1 AND (cohort_name LIKE ?1 OR class_name LIKE ?1) ORDER BY id DESC");
    assert_eq!(p, vec!["%2026%"]);
    assert_eq!(like_pattern("ab"), "%ab%");
    let page = resolve_page(None, None, 20);
    assert_eq!((page.page, page.page_size, page.offset), (1, 20, 0));
    let page = resolve_page(Some(3), Some(10), 20);
    assert_eq!(page.offset, 20);
}

#[test]
fn table_orders() {
    let del = get_delete_order();
    let ins = get_insert_order();
    assert_eq!(del.len(), 14);
    assert_eq!(del[0], Table::HomeworkRecord);
    assert_eq!(ins[0], Table::Cohort);
    assert_eq!(del[13].name(), "cohort");
    assert_eq!(get_required_tables().len(), 14);
    let mut reversed = del.clone();
    reversed.reverse();
    assert_eq!(ins, reversed);
    let names: Vec<&str> = del.iter().map(|t| t.name()).collect();
    assert_eq!(
        names,
        vec![
            "homework_record", "score", "exam_subject_config", "attendance", "homework", "exam", "notice", "duty",
            "behavior_record", "class_fee", "student", "subject", "system_config", "cohort"
        ]
    );
    let required: Vec<&str> = get_required_tables().iter().map(|t| t.name()).collect();
    assert!(required.contains(&"exam_subject_config"));
    assert!(required.contains(&"class_fee"));
}

#[test]
fn rankings() {
    assert_eq!(rank_scores(&vec![Some(90), None, Some(95), Some(90)]), vec![Some(2), None, Some(1), Some(2)]);
    assert_eq!(competition_ranks(&vec![100, 90, 90, 80]), vec![1, 2, 2, 4]);
    assert_eq!(competition_ranks(&vec![]), Vec::<i64>::new());
}

#[test]
fn package_checksum_refuses_tampered_database() {
    let db = b"SQLite format 3\0rest of the database";
    let recorded = sha256_hex(db);
    assert_eq!(check_package_checksum(&sha256_hex(db), &recorded).is_ok(), true);
    let mut tampered = db.to_vec();
    tampered[20] ^= 0xFF;
    let err = check_package_checksum(&sha256_hex(&tampered), &recorded).unwrap_err();
    assert!(err.message().contains("校验"));
    assert!(err.message().contains("篡改"));
    assert!(check_integrity_report("ok").is_ok());
    assert_eq!(check_integrity_report("bad page").unwrap_err().message(), "备份文件数据库完整性检查失败: bad page");
}

#[test]
fn backup_headers_and_manifest_format() {
    assert!(check_manifest_format("2.0.0").is_ok());
    assert_eq!(check_manifest_format("1.0.0").unwrap_err().message(), "不支持的备份格式版本: 1.0.0");
    assert!(is_zip_header(b"PK\x03\x04"));
    assert!(!is_zip_header(b"PK\x03"));
    assert!(is_sqlite_header(b"SQLite format 3\0"));
    assert!(check_backup_content(b"SQLite format 3\0...").is_ok());
    assert_eq!(check_backup_content(b"").unwrap_err().message(), "备份文件为空");
    assert_eq!(check_backup_content(b"hello").unwrap_err().message(), "备份文件不是有效的 SQLite 数据库");
}

#[test]
fn sha256_and_hex() {
    assert_eq!(sha256_hex(b"abc"), "ba7816bf8f01cfea414140de5dae2223b00361a396177a9cb410ff61f20015ad");
    assert_eq!(sha256_hex(b""), "e3b0c44298fc1c149afbf4c8996fb92427ae41e4649b934ca495991b7852b855");
}

#[test]
fn legacy_checksums() {
    let current = sha256_hex(b"data");
    assert_eq!(verify_legacy_checksum(None, &current).unwrap_err().message(), "旧版备份缺少 .sha256 校验文件，出于安全原因拒绝恢复");
    assert_eq!(verify_legacy_checksum(Some("  \n"), &current).unwrap_err().message(), "旧版备份的 .sha256 校验文件为空，拒绝恢复");
    let stored = format!("{}\n", current);
    assert_eq!(verify_legacy_checksum(Some(&stored), &current).unwrap(), current);
    let other = sha256_hex(b"other");
    let err = verify_legacy_checksum(Some(&other), &current).unwrap_err();
    assert_eq!(
        err.message(),
        format!("备份文件校验失败：当前 SHA256 ({}) 与校验文件 ({}) 不匹配，文件可能已损坏或被篡改", &current[..16], &other[..16])
    );
}

#[test]
fn restore_statements() {
    assert_eq!(escape_sql_literal("it's"), "it''s");
    assert_eq!(vacuum_into_sql("/tmp/a'b.sqlite"), "VACUUM INTO '/tmp/a''b.sqlite'");
    assert_eq!(attach_backup_sql("/tmp/x.sqlite"), "ATTACH DATABASE '/tmp/x.sqlite' AS backup_db");
    assert_eq!(quote_ident("score"), "\"score\"");
    let main = vec!["id".to_string(), "name".to_string(), "extra".to_string()];
    let back = vec!["name".to_string(), "id".to_string()];
    assert_eq!(shared_columns(&main, &back), vec!["id".to_string(), "name".to_string()]);
    assert_eq!(column_list(&vec!["id".to_string(), "name".to_string()]), "\"id\", \"name\"");
    assert_eq!(
        import_table_sql(Table::Subject, &main, &back).unwrap(),
        "INSERT INTO main.\"subject\" (\"id\", \"name\") SELECT \"id\", \"name\" FROM backup_db.\"subject\""
    );
    let err = import_table_sql(Table::Duty, &main, &vec!["x".to_string()]).unwrap_err();
    assert_eq!(err.message(), "表 duty 在当前数据库与备份之间不存在可恢复的同名列");
    let tables = vec![Table::Cohort, Table::Student];
    assert!(check_tables_present(&tables, &vec![true, true]).is_ok());
    assert_eq!(check_tables_present(&tables, &vec![true, false]).unwrap_err().message(), "备份文件缺少必需的表: student");
    assert!(check_row_counts(&tables, &vec![1, 2], &vec![1, 2]).is_ok());
    assert_eq!(
        check_row_counts(&tables, &vec![1, 2], &vec![1, 3]).unwrap_err().message(),
        "表 student 导入行数不一致: 期望 2, 实际 3"
    );
    assert!(matches!(check_backup_content(b"x").unwrap_err(), BackupError::NotSqlite));
    assert_eq!(BackupError::FileMissing.message(), "备份文件不存在");
    assert!(unique_suffix() > 0);
}

#[test]
fn suffix_falls_back_to_zero_before_epoch() {
    assert_eq!(suffix_from_elapsed(Some(1_700_000_000_123_456_789)), 1_700_000_000_123_456_789);
    assert_eq!(suffix_from_elapsed(None), 0);
}

#[test]
fn test_get_current_cohort_tolerates_duplicate_current_rows() {
    let reg = CohortRegistry::from_rows(vec![
        cohort(1, "A届", "使用中", true),
        cohort(2, "B届", "使用中", true),
        cohort(3, "C届", "使用中", true),
    ])
    .unwrap();
    let i = reg.current_index().unwrap();
    assert_eq!(reg.rows()[i].cohort_name, "A届");
    assert_eq!(reg.rows()[i].class_name, "1班");
}

#[test]
fn test_archived_cohort_rejects_writes() {
    let mut reg = CohortRegistry::from_rows(vec![cohort(1, "归档届", "使用中", true), cohort(2, "另一届", "使用中", false)]).unwrap();
    assert!(reg.archive(1, "2025-06-01 00:00:00").is_ok());
    assert_eq!(reg.check_writable(1), Err(CohortError::ReadOnly));
    assert_eq!(reg.check_writable(1).unwrap_err().message(), "已归档届次不允许修改数据");
    assert_eq!(check_cohort_readonly(Some("已归档")), Err(CohortError::ReadOnly));
    assert_eq!(check_cohort_readonly(None), Err(CohortError::Missing));
    assert!(check_cohort_readonly(Some("使用中")).is_ok());
    // The current mark moved to the other cohort in use.
    let i = reg.current_index().unwrap();
    assert_eq!(reg.rows()[i].id, 2);
}

#[test]
fn test_e2e_archive_readonly_and_unarchive_recovery() {
    let mut reg = CohortRegistry::from_rows(vec![cohort(1, "归档验收", "使用中", true)]).unwrap();
    assert!(reg.archive(1, "t1").is_ok());
    assert_eq!(reg.archive(1, "t2"), Err(CohortError::AlreadyArchived));
    assert_eq!(reg.set_current(1), Err(CohortError::CannotBeCurrent));
    assert!(reg.unarchive(1, "t3").is_ok());
    assert!(reg.check_writable(1).is_ok());
    assert_eq!(reg.unarchive(1, "t4"), Err(CohortError::NotArchived));
    assert_eq!(reg.archive(9, "t5"), Err(CohortError::NotFound));
}

#[test]
fn test_e2e_switch_cohorts_and_verify_isolation() {
    let mut reg = CohortRegistry::from_rows(vec![cohort(1, "甲", "使用中", true), cohort(2, "乙", "使用中", false)]).unwrap();
    assert!(reg.set_current(2).is_ok());
    let i = reg.current_index().unwrap();
    assert_eq!(reg.rows()[i].id, 2);
    assert!(!reg.rows()[0].is_current);
}

#[test]
fn test_e2e_first_launch_create_cohort_import_students_enter_dashboard() {
    assert!(new_cohort_is_current(0));
    assert!(!new_cohort_is_current(1));
    let mut reg = CohortRegistry::from_rows(vec![]).unwrap();
    reg.create(
        1,
        NewCohort {
            cohort_name: "2026届".to_string(),
            class_name: "1班".to_string(),
            grade_name: None,
            school_name: None,
            head_teacher: None,
            admission_year: Some(2026),
            graduation_year: Some(2029),
            semester: Some("2026 秋季学期".to_string()),
            remark: None,
        },
        "now",
    );
    let i = reg.current_index().unwrap();
    assert_eq!(reg.rows()[i].cohort_name, "2026届");
    assert!(reg.rows()[i].is_current);
    assert_eq!(reg.rows()[i].status, "使用中");
    reg.create(
        2,
        NewCohort {
            cohort_name: "2027届".to_string(),
            class_name: "2班".to_string(),
            grade_name: None,
            school_name: None,
            head_teacher: None,
            admission_year: None,
            graduation_year: None,
            semester: None,
            remark: None,
        },
        "later",
    );
    assert!(!reg.rows()[1].is_current);
    assert_eq!(reg.rows()[reg.current_index().unwrap()].id, 1);
}

#[test]
fn duplicate_ids_are_refused() {
    assert!(CohortRegistry::from_rows(vec![cohort(1, "a", "使用中", false), cohort(1, "b", "使用中", false)]).is_none());
    let mut reg = CohortRegistry::from_rows(vec![cohort(4, "a", "使用中", false), cohort(2, "b", "使用中", false)]).unwrap();
    reg.ensure_current();
    let i = reg.current_index().unwrap();
    assert_eq!(reg.rows()[i].id, 2);
}

fn sqlite_bytes() -> Vec<u8> {
    let mut v = b"SQLite format 3\0".to_vec();
    v.extend_from_slice(b"page data");
    v
}

#[test]
fn backup_file_verdict_checks_in_order() {
    let content = sqlite_bytes();
    let hash = sha256_hex(&content);
    let all = vec![true; 14];
    assert!(matches!(backup_file_verdict(b"", false, None, false, None, &vec![]), Err(BackupError::FileEmpty)));
    assert!(matches!(backup_file_verdict(b"xx", false, None, false, None, &vec![]), Err(BackupError::NotSqlite)));
    assert!(matches!(
        backup_file_verdict(&content, true, None, true, Some("ok"), &all),
        Err(BackupError::LegacyChecksumMissing)
    ));
    assert!(matches!(
        backup_file_verdict(&content, true, Some("  \n"), true, Some("ok"), &all),
        Err(BackupError::LegacyChecksumEmpty)
    ));
    match backup_file_verdict(&content, true, Some("abc"), true, Some("ok"), &all) {
        Err(BackupError::LegacyChecksumMismatch { current, stored }) => {
            assert_eq!(current, hash);
            assert_eq!(stored, "abc");
        }
        other => panic!("unexpected {:?}", other),
    }
    let stored = format!("{}\n", hash);
    assert_eq!(backup_file_verdict(&content, true, Some(&stored), false, None, &vec![]).unwrap(), hash);
    assert_eq!(backup_file_verdict(&content, false, None, false, None, &vec![]).unwrap(), hash);
    match backup_file_verdict(&content, false, None, true, Some("page 3 broken"), &all) {
        Err(BackupError::IntegrityFailed { report }) => assert_eq!(report, "page 3 broken"),
        other => panic!("unexpected {:?}", other),
    }
    let mut present = all.clone();
    present[7] = false;
    present[12] = false;
    match backup_file_verdict(&content, false, None, true, Some("ok"), &present) {
        Err(e) => assert_eq!(e.message(), "备份文件缺少必需的表: exam_subject_config"),
        other => panic!("unexpected {:?}", other),
    }
    assert_eq!(backup_file_verdict(&content, true, Some(&stored), true, Some("ok"), &all).unwrap(), hash);
}

#[test]
fn restore_protocol_runs_in_table_order() {
    let (mut state, mut action) = restore_start("/tmp/auto.db".to_string());
    assert!(matches!(action, RestoreAction::Migrate));
    for _ in 0..4 {
        let (s, a) = restore_step(state, RestoreEvent::Done);
        state = s;
        action = a;
    }
    assert!(state.backed_up);
    let ins = get_insert_order();
    let del = get_delete_order();
    for i in 0..14 {
        assert!(matches!(action, RestoreAction::CheckTable(t) if t == ins[i]));
        let (s, a) = restore_step(state, RestoreEvent::TableExists(true));
        state = s;
        action = a;
    }
    for i in 0..14 {
        assert!(matches!(action, RestoreAction::CountBackupRows(t) if t == ins[i]));
        let (s, a) = restore_step(state, RestoreEvent::RowCount(i as i64));
        state = s;
        action = a;
    }
    assert!(matches!(action, RestoreAction::BeginWithoutKeys));
    let (s, a) = restore_step(state, RestoreEvent::Done);
    state = s;
    action = a;
    for i in 0..14 {
        assert!(matches!(action, RestoreAction::DeleteTable(t) if t == del[i]));
        let (s, a) = restore_step(state, RestoreEvent::Done);
        state = s;
        action = a;
    }
    assert!(matches!(action, RestoreAction::EnableKeys));
    let (s, a) = restore_step(state, RestoreEvent::Done);
    state = s;
    action = a;
    for i in 0..14 {
        assert!(matches!(action, RestoreAction::ReadColumns(t) if t == ins[i]));
        let cols = vec!["id".to_string()];
        let (s, a) = restore_step(state, RestoreEvent::Columns { main: cols.clone(), backup: cols });
        state = s;
        match &a {
            RestoreAction::Import { table, sql } => {
                assert_eq!(*table, ins[i]);
                assert_eq!(
                    *sql,
                    format!("INSERT INTO main.\"{0}\" (\"id\") SELECT \"id\" FROM backup_db.\"{0}\"", ins[i].name())
                );
            }
            other => panic!("unexpected {:?}", other),
        }
        let (s, a) = restore_step(state, RestoreEvent::Done);
        state = s;
        action = a;
    }
    for i in 0..14 {
        assert!(matches!(action, RestoreAction::CountRows(t) if t == ins[i]));
        let (s, a) = restore_step(state, RestoreEvent::RowCount(i as i64));
        state = s;
        action = a;
    }
    assert!(matches!(action, RestoreAction::Commit));
    let (_, a) = restore_step(state, RestoreEvent::Done);
    assert!(matches!(a, RestoreAction::Finish));
}

#[test]
fn restore_failures_roll_back_with_the_auto_backup_path() {
    let (state, _) = restore_start("/tmp/auto.db".to_string());
    let (state, _) = restore_step(state, RestoreEvent::Done);
    let (failed, a) = restore_step(state, RestoreEvent::Failed("备份文件不存在".to_string()));
    assert!(!failed.backed_up);
    assert!(matches!(a, RestoreAction::Fail(m) if m == "备份文件不存在"));

    let (mut state, _) = restore_start("/tmp/auto.db".to_string());
    for _ in 0..4 {
        state = restore_step(state, RestoreEvent::Done).0;
    }
    let (_, a) = restore_step(state, RestoreEvent::Failed("检查备份表 cohort 失败: io".to_string()));
    assert!(matches!(a, RestoreAction::Rollback(m) if m == "恢复失败: 检查备份表 cohort 失败: io。原数据库已自动备份到: /tmp/auto.db"));

    let (mut state, _) = restore_start("/tmp/auto.db".to_string());
    for _ in 0..4 {
        state = restore_step(state, RestoreEvent::Done).0;
    }
    for i in 0..14 {
        state = restore_step(state, RestoreEvent::TableExists(i != 9)).0;
    }
    assert!(matches!(state.phase, RestorePhase::Failed));

    let (mut state, _) = restore_start("/tmp/auto.db".to_string());
    for _ in 0..4 {
        state = restore_step(state, RestoreEvent::Done).0;
    }
    for _ in 0..13 {
        state = restore_step(state, RestoreEvent::TableExists(true)).0;
    }
    let (state, a) = restore_step(state, RestoreEvent::TableExists(false));
    assert!(matches!(
        a,
        RestoreAction::Rollback(m) if m == "恢复失败: 备份文件缺少必需的表: homework_record。原数据库已自动备份到: /tmp/auto.db"
    ));
    assert!(matches!(state.phase, RestorePhase::Failed));
}

#[test]
fn cohort_not_found_has_a_generic_message() {
    assert_eq!(CohortError::NotFound.message(), "获取届次失败");
}
