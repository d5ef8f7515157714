use class_copilot::affair::{behavior_score, check_behavior_student, check_class_fee_payload, merged_fee_fields};
use class_copilot::attendance::{check_attendance_batch, is_valid_attendance_status, AttendanceRecord};
use class_copilot::exam::check_score_batch;
use class_copilot::export::{cohort_export_entries, cohort_title, export_summary_rows, ExportCounts};
use class_copilot::homework::{check_homework_batch, check_homework_status};
use class_copilot::membership::{check_student_in_cohort, find_first_false, find_outsider, outsider_message};
use class_copilot::profile::{
    attendance_pending, behavior_score_total, focus_reason_lines, focus_reasons, overall_evaluation,
};
use class_copilot::settings::{
    check_export_preference, clamp_threshold, configured_backup_dir, frontend_log_level, is_backup_file_name,
    legacy_app_identifier, legacy_migration_needed, parse_i64, recent_backups, requested_backup_dir,
    setting_text, stored_export_preference, stored_threshold, text_lt, threshold_text, BackupFileInfo,
    ConfigKey, LogLevel,
};
use class_copilot::settings::{template_headers, template_kind, TemplateKind};
use class_copilot::subject::{build_subject_query, check_subject_deletable, default_subjects, write_error_message};

fn record(student_id: i64, status: &str) -> AttendanceRecord {
    AttendanceRecord { student_id, status: status.to_string(), reason: None, remark: None }
}

#[test]
fn test_cross_cohort_student_validated_by_command_pattern() {
    // A student of cohort 2 cannot be given attendance in cohort 1.
    let r = check_attendance_batch(1, &vec![record(7, "正常")], &vec![Some(2)]);
    assert_eq!(r, Err("学生 ID 7 不属于届次 1 (学生届次: 2)".to_string()));
}

#[test]
fn attendance_batch_checks_members_before_statuses() {
    let records = vec![record(1, "迟到"), record(2, "生病"), record(3, "正常")];
    assert_eq!(check_attendance_batch(5, &records, &vec![Some(5), Some(5), Some(5)]), Err("无效的考勤状态: 生病".to_string()));
    assert_eq!(
        check_attendance_batch(5, &records, &vec![Some(5), Some(5), None]),
        Err("学生 ID 3 不存在或已删除".to_string())
    );
    let ok = vec![record(1, "正常"), record(2, "迟到"), record(3, "早退"), record(4, "请假"), record(5, "旷课")];
    assert_eq!(check_attendance_batch(5, &ok, &vec![Some(5); 5]), Ok(()));
    assert_eq!(check_attendance_batch(5, &vec![], &vec![]), Ok(()));
    assert!(is_valid_attendance_status("旷课"));
    assert!(!is_valid_attendance_status("正常 "));
}

#[test]
fn membership_helpers_find_the_first_failure() {
    assert_eq!(find_outsider(&vec![Some(1), Some(2), None], 1), Some(1));
    assert_eq!(find_outsider(&vec![Some(1), Some(1)], 1), None);
    assert_eq!(find_first_false(&vec![true, true, false, false]), Some(2));
    assert_eq!(find_first_false(&vec![]), None);
    assert_eq!(check_student_in_cohort(9, 3, Some(3)), Ok(()));
    assert_eq!(check_student_in_cohort(9, 3, None), Err("学生 ID 9 不存在或已删除".to_string()));
    assert_eq!(outsider_message(-4, 3, Some(8)), "学生 ID -4 不属于届次 3 (学生届次: 8)");
}

#[test]
fn test_e2e_homework_batch_register_incomplete_export() {
    assert_eq!(check_homework_status("已完成"), Ok(()));
    assert_eq!(check_homework_status("做完了"), Err("无效的作业状态".to_string()));
    for s in ["未登记", "已完成", "未完成", "迟交", "补交", "质量较差"] {
        assert!(check_homework_status(s).is_ok());
    }
    assert_eq!(check_homework_batch(4, &vec![1, 2, 3], &vec![Some(4), Some(4), Some(4)]), Ok(()));
    assert_eq!(
        check_homework_batch(4, &vec![1, 2, 3], &vec![Some(4), Some(6), None]),
        Err("学生 ID 2 不属于作业所属届次 (学生届次: 6, 作业届次: 4)".to_string())
    );
    assert_eq!(
        check_homework_batch(4, &vec![1, 2], &vec![None, Some(6)]),
        Err("学生 ID 1 不存在或已删除".to_string())
    );
}

#[test]
fn test_e2e_affairs_records_creation() {
    assert_eq!(check_class_fee_payload(1, "收入", false, Some(3), Some(1), Some("已缴费")), Ok(()));
    assert_eq!(check_class_fee_payload(1, "支出", false, None, None, None), Ok(()));
    assert_eq!(behavior_score(Some(-2)), -2);
    assert_eq!(behavior_score(None), 0);
    assert_eq!(check_behavior_student(3, 1, Some(1)), Ok(()));
    assert_eq!(check_behavior_student(3, 1, Some(2)), Err("学生 ID 3 不属于届次 1 (学生届次: 2)".to_string()));
}

#[test]
fn class_fee_payload_refusals_in_order() {
    assert_eq!(check_class_fee_payload(1, "捐赠", true, None, None, None), Err("班费类型只能是“收入”或“支出”".to_string()));
    assert_eq!(check_class_fee_payload(1, "收入", true, Some(3), None, None), Err("金额不能为负数".to_string()));
    assert_eq!(check_class_fee_payload(1, "收入", false, Some(3), None, Some("x")), Err("学生 ID 3 不存在或已删除".to_string()));
    assert_eq!(check_class_fee_payload(1, "收入", false, None, None, Some("x")), Err("缴费状态无效".to_string()));
    assert_eq!(check_class_fee_payload(1, "支出", false, None, None, Some("欠费")), Err("支出记录不应设置缴费状态".to_string()));
    let merged = merged_fee_fields(None, Some(9), None, "收入".to_string(), Some(2), Some("欠费".to_string()));
    assert_eq!(merged, ("收入".to_string(), Some(9), Some("欠费".to_string())));
}

#[test]
fn score_batch_refusals() {
    assert_eq!(check_score_batch(2, &vec![5, 6], &vec![Some(2), Some(2)], &vec![false, false], "100.0"), Ok(()));
    assert_eq!(
        check_score_batch(2, &vec![5, 6], &vec![Some(2), Some(3)], &vec![true, false], "100.0"),
        Err("学生 ID 5 的成绩超出有效范围 (0-100.0)".to_string())
    );
    assert_eq!(
        check_score_batch(2, &vec![5, 6], &vec![Some(2), Some(3)], &vec![false, false], "100.0"),
        Err("学生 ID 6 不属于考试所属届次".to_string())
    );
}

#[test]
fn subject_rules() {
    assert_eq!(check_subject_deletable(0, 0, false), Ok(()));
    assert_eq!(check_subject_deletable(1, 0, false), Err("科目已被历史作业或成绩引用，请先停用，不能直接物理删除".to_string()));
    assert_eq!(check_subject_deletable(0, 2, true), Err("科目已被历史作业或成绩引用，请先停用，不能直接物理删除".to_string()));
    assert_eq!(check_subject_deletable(0, 0, true), Err("请先停用科目，再执行删除".to_string()));
    assert_eq!(build_subject_query(None), "SELECT * FROM subject ORDER BY is_active DESC, sort_order ASC, id ASC");
    assert_eq!(
        build_subject_query(Some(true)),
        "SELECT * FROM subject WHERE is_active = 1 ORDER BY is_active DESC, sort_order ASC, id ASC"
    );
    assert_eq!(write_error_message("UNIQUE constraint failed: subject.name", "科目名已存在", "创建科目失败: "), "科目名已存在");
    assert_eq!(write_error_message("disk I/O error", "科目名已存在", "创建科目失败: "), "创建科目失败: disk I/O error");
    assert_eq!(default_subjects(), vec!["语文", "数学", "英语", "物理", "化学", "生物", "历史", "地理", "政治"]);
}

#[test]
fn parse_i64_reads_as_std_parse_does() {
    for s in ["0", "42", "-7", "+15", "007", "9223372036854775807", "-9223372036854775808", "", "-", "+", "1a", " 3", "9223372036854775808", "-9223372036854775809", "99999999999999999999999"] {
        assert_eq!(parse_i64(s), s.parse::<i64>().ok(), "text {:?}", s);
    }
}

#[test]
fn reminder_threshold_round_trip() {
    assert_eq!(clamp_threshold(0), 1);
    assert_eq!(clamp_threshold(45), 30);
    assert_eq!(clamp_threshold(7), 7);
    assert_eq!(threshold_text(-3), "1");
    assert_eq!(threshold_text(99), "30");
    for v in [-100, 0, 1, 5, 30, 31, i64::MAX] {
        let stored = threshold_text(v);
        assert_eq!(stored_threshold(Some(stored.as_str())), clamp_threshold(v));
    }
    assert_eq!(stored_threshold(None), 3);
    assert_eq!(stored_threshold(Some("abc")), 3);
}

#[test]
fn preferences_and_directories() {
    assert_eq!(check_export_preference("pdf"), Ok(()));
    assert_eq!(check_export_preference("docx"), Err("导出偏好仅支持 xlsx、pdf 或 both".to_string()));
    assert_eq!(stored_export_preference(None), "xlsx");
    assert_eq!(stored_export_preference(Some("both".to_string())), "both");
    assert_eq!(setting_text("  一中 "), "一中");
    assert_eq!(configured_backup_dir(Some("  ".to_string())), None);
    assert_eq!(configured_backup_dir(Some(" /b ".to_string())), Some(" /b ".to_string()));
    assert_eq!(configured_backup_dir(None), None);
    assert_eq!(requested_backup_dir(" /data/bk "), Some("/data/bk".to_string()));
    assert_eq!(requested_backup_dir("   "), None);
    assert_eq!(ConfigKey::ReminderThreshold.key(), "reminder_threshold");
    assert_eq!(ConfigKey::BackupDir.key(), "default_backup_dir");
    assert_eq!(frontend_log_level("warn"), LogLevel::Warn);
    assert_eq!(frontend_log_level("trace"), LogLevel::Info);
}

#[test]
fn migrates_legacy_data_when_current_dir_is_missing() {
    assert_eq!(legacy_app_identifier(), "com.class-copilot.app");
    assert!(legacy_migration_needed(false, true, false, true));
    assert!(legacy_migration_needed(false, true, true, true));
}

#[test]
fn skips_legacy_copy_when_current_dir_already_has_data() {
    assert!(!legacy_migration_needed(false, true, true, false));
    assert!(!legacy_migration_needed(true, true, false, true));
    assert!(!legacy_migration_needed(false, false, false, true));
}

fn backup(name: &str, at: &str) -> BackupFileInfo {
    BackupFileInfo {
        file_name: name.to_string(),
        file_path: format!("/b/{}", name),
        size_bytes: 1,
        modified_at: at.to_string(),
    }
}

#[test]
fn recent_backups_newest_first_at_most_ten() {
    assert!(is_backup_file_name("a.bak"));
    assert!(!is_backup_file_name(".bak"));
    assert!(!is_backup_file_name("a.bak.zip"));
    assert!(is_backup_file_name("..bak"));
    assert!(text_lt("2024-01-02", "2024-01-10"));
    assert!(text_lt("ab", "abc"));
    assert!(!text_lt("abc", "abc"));

    let list = recent_backups(vec![
        backup("old.bak", "2024-01-01 10:00:00"),
        backup("notes.txt", "2030-01-01 00:00:00"),
        backup("new.bak", "2024-03-01 09:00:00"),
        backup("mid.bak", "2024-02-01 09:00:00"),
    ]);
    let names: Vec<&str> = list.iter().map(|b| b.file_name.as_str()).collect();
    assert_eq!(names, vec!["new.bak", "mid.bak", "old.bak"]);

    let many: Vec<BackupFileInfo> =
        (0..15).map(|i| backup(&format!("b{:02}.bak", i), &format!("2024-01-{:02} 00:00:00", i + 1))).collect();
    let list = recent_backups(many);
    assert_eq!(list.len(), 10);
    assert_eq!(list[0].file_name, "b14.bak");
    assert_eq!(list[9].file_name, "b05.bak");
}

#[test]
fn focus_reasons_and_evaluation() {
    let none = focus_reasons(false, 2, 2, 0);
    assert!(none.is_empty());
    assert_eq!(overall_evaluation(&none), "整体表现稳定，可继续保持当前跟进节奏。");
    assert_eq!(focus_reason_lines(&none), vec!["无".to_string()]);
    let all = focus_reasons(true, 3, 4, -5);
    assert_eq!(
        all,
        vec![
            "已被标记为重点关注".to_string(),
            "连续未交作业 3 次".to_string(),
            "考勤异常 4 次".to_string(),
            "奖惩累计分值为 -5".to_string(),
        ]
    );
    assert_eq!(
        overall_evaluation(&all),
        "建议重点跟进：已被标记为重点关注；连续未交作业 3 次；考勤异常 4 次；奖惩累计分值为 -5。"
    );
    assert_eq!(focus_reason_lines(&all)[1], "- 连续未交作业 3 次");
    assert_eq!(behavior_score_total(&vec![5, -3, -4]), -2);
    assert_eq!(behavior_score_total(&vec![]), 0);
    assert!(attendance_pending(0, 0, 0, 0, 0));
    assert!(!attendance_pending(0, 1, 0, 0, 0));
}

#[test]
fn test_export_cohort_contains_summary_workbook() {
    let counts = ExportCounts {
        students: 1,
        homeworks: 1,
        homework_records: 1,
        attendance: 1,
        exams: 0,
        scores: 0,
        notices: 0,
        duties: 0,
        behaviors: 0,
        exam_subject_configs: 0,
        class_fees: 0,
    };
    let entries = cohort_export_entries(&counts, &vec![]);
    assert!(entries.contains(&"students.json".to_string()));
    assert!(entries.contains(&"homeworks.json".to_string()));
    assert!(entries.contains(&"export_summary.xlsx".to_string()));
    assert!(entries.contains(&"metadata.json".to_string()));
    assert_eq!(
        entries,
        vec!["students.json", "homeworks.json", "homework_records.json", "attendance.json", "metadata.json", "export_summary.xlsx"]
    );
    let rows = export_summary_rows(&counts, 0);
    assert_eq!(rows[0], ("学生数量".to_string(), 1));
    assert_eq!(rows[1], ("作业数量".to_string(), 1));
    assert_eq!(rows.len(), 10);
    assert_eq!(cohort_title("2026届", "1班"), "2026届 1班");
}

#[test]
fn export_entries_with_everything() {
    let counts = ExportCounts {
        students: 2,
        homeworks: 0,
        homework_records: 5,
        attendance: 0,
        exams: 1,
        scores: 3,
        notices: 1,
        duties: 1,
        behaviors: 1,
        exam_subject_configs: 2,
        class_fees: 4,
    };
    let entries = cohort_export_entries(&counts, &vec!["a.pdf".to_string()]);
    assert_eq!(
        entries,
        vec![
            "students.json",
            "homeworks.json",
            "attachments/homework/a.pdf",
            "exams.json",
            "scores.json",
            "exam_subject_configs.json",
            "notices.json",
            "duties.json",
            "behavior_records.json",
            "class_fee.json",
            "metadata.json",
            "export_summary.xlsx"
        ]
    );
    let rows = export_summary_rows(&counts, 1);
    assert_eq!(rows.len(), 10);
    assert_eq!(rows[9], ("附件数量".to_string(), 1));
}

#[test]
fn templates() {
    assert_eq!(template_kind("student"), Ok(TemplateKind::Student));
    assert_eq!(template_kind("score"), Ok(TemplateKind::Score));
    assert_eq!(template_kind("exam"), Err("不支持的模板类型".to_string()));
    assert_eq!(template_headers(TemplateKind::Score), vec!["学号", "姓名", "成绩"]);
    assert_eq!(template_headers(TemplateKind::Student).len(), 7);
}
