use vstd::prelude::*;

use crate::membership::{find_outsider, first_outsider};
use crate::text::{decimal_int, push_decimal_i64, push_str, str_eq};

verus! {

/// A homework assignment of a cohort.
#[derive(Debug)]
pub struct Homework {
    pub id: i64,
    pub cohort_id: i64,
    pub title: String,
    pub subject_id: Option<i64>,
    pub subject_name: Option<String>,
    pub description: Option<String>,
    pub publish_date: String,
    pub deadline: Option<String>,
    pub remark: Option<String>,
    pub created_at: String,
    pub updated_at: String,
    pub deleted_at: Option<String>,
}

/// How one student did one homework.
#[derive(Debug)]
pub struct HomeworkRecord {
    pub id: i64,
    pub homework_id: i64,
    pub student_id: i64,
    pub status: String,
    pub submit_time: Option<String>,
    pub remark: Option<String>,
    pub created_at: String,
    pub updated_at: String,
}

/// The six homework statuses: not yet registered, done, not done, late,
/// made up, poor quality.
pub open spec fn valid_homework_status(s: Seq<char>) -> bool {
    s == "未登记"@ || s == "已完成"@ || s == "未完成"@ || s == "迟交"@ || s == "补交"@ || s == "质量较差"@
}

/// Checks a homework status, as registering one or several records does
/// before anything else.
pub fn check_homework_status(status: &str) -> (r: Result<(), String>)
    ensures
        r is Ok <==> valid_homework_status(status@),
        r matches Err(e) ==> e@ == "无效的作业状态"@,
{
    if str_eq(status, "未登记") || str_eq(status, "已完成") || str_eq(status, "未完成") || str_eq(status, "迟交")
        || str_eq(status, "补交") || str_eq(status, "质量较差") {
        Ok(())
    } else {
        let mut m = String::new();
        push_str(&mut m, "无效的作业状态");
        proof {
            assert(m@ =~= "无效的作业状态"@);
        }
        Err(m)
    }
}

/// The message that refuses a student of a batch registration who is not a
/// member of the homework's cohort.
pub open spec fn homework_outsider_text(student_id: i64, homework_cohort: i64, owner: Option<i64>) -> Seq<char> {
    match owner {
        None => "学生 ID "@ + decimal_int(student_id as int) + " 不存在或已删除"@,
        Some(c) => "学生 ID "@ + decimal_int(student_id as int) + " 不属于作业所属届次 (学生届次: "@
            + decimal_int(c as int) + ", 作业届次: "@ + decimal_int(homework_cohort as int) + ")"@,
    }
}

/// Decides whether a batch registration may touch the records of
/// `student_ids` for a homework of cohort `homework_cohort`; `owners[j]` is
/// the cohort of student `j` (`None` when it does not exist or is deleted).
/// The first student who is not a member refuses the whole batch.
pub fn check_homework_batch(homework_cohort: i64, student_ids: &Vec<i64>, owners: &Vec<Option<i64>>) -> (r: Result<(), String>)
    requires
        owners.len() == student_ids.len(),
    ensures
        match first_outsider(owners@, homework_cohort) {
            None => r is Ok,
            Some(j) => r matches Err(e) && e@ == homework_outsider_text(student_ids@[j], homework_cohort, owners@[j]),
        },
{
    match find_outsider(owners, homework_cohort) {
        None => Ok(()),
        Some(j) => {
            let id = student_ids[j];
            let mut m = String::new();
            push_str(&mut m, "学生 ID ");
            push_decimal_i64(&mut m, id);
            match owners[j] {
                None => {
                    push_str(&mut m, " 不存在或已删除");
                },
                Some(c) => {
                    push_str(&mut m, " 不属于作业所属届次 (学生届次: ");
                    push_decimal_i64(&mut m, c);
                    push_str(&mut m, ", 作业届次: ");
                    push_decimal_i64(&mut m, homework_cohort);
                    push_str(&mut m, ")");
                },
            }
            proof {
                assert(m@ =~= homework_outsider_text(id, homework_cohort, owners@[j as int]));
            }
            Err(m)
        },
    }
}

/// The statuses that registering homework accepts are exactly 未登记, 已完成,
/// 未完成, 迟交, 补交 and 质量较差; any other is refused with 无效的作业状态.
pub proof fn law_homework_statuses(s: Seq<char>)
    ensures
        valid_homework_status(s) <==> (s == "未登记"@ || s == "已完成"@ || s == "未完成"@ || s == "迟交"@
            || s == "补交"@ || s == "质量较差"@),
{
}

} // verus!
