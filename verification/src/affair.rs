use vstd::prelude::*;

use crate::membership::{belongs, check_student_in_cohort, outsider_text};
use crate::text::{push_str, str_eq};

verus! {

/// A notice published to a cohort.
#[derive(Debug)]
pub struct Notice {
    pub id: i64,
    pub cohort_id: i64,
    pub title: String,
    pub content: Option<String>,
    pub publish_date: String,
    pub remark: Option<String>,
    pub created_at: String,
    pub updated_at: String,
    pub deleted_at: Option<String>,
}

/// A duty assignment of a cohort, to a student or a group.
#[derive(Debug)]
pub struct Duty {
    pub id: i64,
    pub cohort_id: i64,
    pub duty_date: String,
    pub student_id: Option<i64>,
    pub group_name: Option<String>,
    pub duty_content: Option<String>,
    pub status: String,
    pub remark: Option<String>,
    pub created_at: String,
    pub updated_at: String,
}

/// A reward or a penalty given to a student, with its score.
#[derive(Debug)]
pub struct BehaviorRecord {
    pub id: i64,
    pub cohort_id: i64,
    pub student_id: i64,
    pub record_type: String,
    pub title: String,
    pub score: i64,
    pub description: Option<String>,
    pub record_date: String,
    pub created_at: String,
    pub updated_at: String,
}

/// The score of a new behaviour record: the one given, or 0.
pub fn behavior_score(score: Option<i64>) -> (r: i64)
    ensures
        r == match score {
            Some(s) => s,
            None => 0,
        },
{
    match score {
        Some(s) => s,
        None => 0,
    }
}

/// Decides whether a behaviour record may be created for `student_id` in
/// cohort `cohort_id`, `owner` being the student's cohort (`None` when the
/// student does not exist or is deleted).
pub fn check_behavior_student(student_id: i64, cohort_id: i64, owner: Option<i64>) -> (r: Result<(), String>)
    ensures
        r is Ok <==> belongs(owner, cohort_id),
        r matches Err(e) ==> e@ == outsider_text(student_id, cohort_id, owner),
{
    check_student_in_cohort(student_id, cohort_id, owner)
}

/// The two kinds of class-fee entry: income and expense.
pub open spec fn valid_fee_type(t: Seq<char>) -> bool {
    t == "收入"@ || t == "支出"@
}

/// The three payment statuses of an income entry: due, paid, in arrears.
pub open spec fn valid_payment_status(s: Seq<char>) -> bool {
    s == "待缴费"@ || s == "已缴费"@ || s == "欠费"@
}

/// Why a class-fee entry is refused, or `None`: its type, then a negative
/// amount, then its student, then its payment status, which only an income
/// entry may have. `owner` is the cohort of the entry's student (`None` when
/// it does not exist or is deleted).
pub open spec fn fee_refusal(
    cohort_id: i64,
    fee_type: Seq<char>,
    amount_negative: bool,
    student_id: Option<i64>,
    owner: Option<i64>,
    payment_status: Option<Seq<char>>,
) -> Option<Seq<char>> {
    if !valid_fee_type(fee_type) {
        Some("班费类型只能是“收入”或“支出”"@)
    } else if amount_negative {
        Some("金额不能为负数"@)
    } else if student_id is Some && !belongs(owner, cohort_id) {
        Some(outsider_text(student_id.unwrap(), cohort_id, owner))
    } else if payment_status is Some && !valid_payment_status(payment_status.unwrap()) {
        Some("缴费状态无效"@)
    } else if payment_status is Some && fee_type == "支出"@ {
        Some("支出记录不应设置缴费状态"@)
    } else {
        None
    }
}

fn text(s: &str) -> (r: String)
    ensures
        r@ == s@,
{
    let mut m = String::new();
    push_str(&mut m, s);
    proof {
        assert(m@ =~= s@);
    }
    m
}

/// Checks a class-fee entry before it is written; `amount_negative` says
/// whether its amount is below zero.
pub fn check_class_fee_payload(
    cohort_id: i64,
    fee_type: &str,
    amount_negative: bool,
    student_id: Option<i64>,
    owner: Option<i64>,
    payment_status: Option<&str>,
) -> (r: Result<(), String>)
    ensures
        match r {
            Ok(_) => fee_refusal(cohort_id, fee_type@, amount_negative, student_id, owner, match payment_status {
                Some(s) => Some(s@),
                None => None,
            }) is None,
            Err(e) => fee_refusal(cohort_id, fee_type@, amount_negative, student_id, owner, match payment_status {
                Some(s) => Some(s@),
                None => None,
            }) == Some(e@),
        },
{
    let is_expense = str_eq(fee_type, "支出");
    if !(str_eq(fee_type, "收入") || is_expense) {
        return Err(text("班费类型只能是“收入”或“支出”"));
    }
    if amount_negative {
        return Err(text("金额不能为负数"));
    }
    match student_id {
        Some(id) => match check_student_in_cohort(id, cohort_id, owner) {
            Ok(_) => {},
            Err(e) => {
                return Err(e);
            },
        },
        None => {},
    }
    match payment_status {
        Some(s) => {
            if !(str_eq(s, "待缴费") || str_eq(s, "已缴费") || str_eq(s, "欠费")) {
                return Err(text("缴费状态无效"));
            }
            if is_expense {
                return Err(text("支出记录不应设置缴费状态"));
            }
        },
        None => {},
    }
    Ok(())
}

/// The fields an update of a class-fee entry is checked with: each given
/// value, or else the entry's current one.
pub fn merged_fee_fields(
    fee_type: Option<String>,
    student_id: Option<i64>,
    payment_status: Option<String>,
    current_type: String,
    current_student: Option<i64>,
    current_status: Option<String>,
) -> (r: (String, Option<i64>, Option<String>))
    ensures
        r.0@ == match fee_type {
            Some(t) => t@,
            None => current_type@,
        },
        r.1 == match student_id {
            Some(s) => Some(s),
            None => current_student,
        },
        r.2 == match payment_status {
            Some(s) => Some(s),
            None => current_status,
        },
{
    let t = match fee_type {
        Some(t) => t,
        None => current_type,
    };
    let s = match student_id {
        Some(s) => Some(s),
        None => current_student,
    };
    let p = match payment_status {
        Some(p) => Some(p),
        None => current_status,
    };
    (t, s, p)
}

/// A class-fee entry of either type with an amount that is not negative and a
/// student of the cohort (or none) is accepted: an income entry with no
/// payment status or with any of 待缴费, 已缴费 and 欠费, an expense entry with
/// none. A negative amount is refused whatever the rest, and so is a payment
/// status on an expense entry; any other type is refused first.
pub proof fn law_fee_entry_checks(
    cohort_id: i64,
    fee_type: Seq<char>,
    amount_negative: bool,
    student_id: Option<i64>,
    owner: Option<i64>,
    payment_status: Option<Seq<char>>,
)
    ensures
        (fee_type == "收入"@ && !amount_negative && (student_id is None || owner == Some(cohort_id))
            && (payment_status is None || payment_status == Some("待缴费"@) || payment_status == Some(
            "已缴费"@,
        ) || payment_status == Some("欠费"@))) ==> fee_refusal(
            cohort_id,
            fee_type,
            amount_negative,
            student_id,
            owner,
            payment_status,
        ) is None,
        (fee_type == "支出"@ && !amount_negative && (student_id is None || owner == Some(cohort_id))
            && payment_status is None) ==> fee_refusal(
            cohort_id,
            fee_type,
            amount_negative,
            student_id,
            owner,
            payment_status,
        ) is None,
        (fee_type == "收入"@ || fee_type == "支出"@) && amount_negative ==> fee_refusal(
            cohort_id,
            fee_type,
            amount_negative,
            student_id,
            owner,
            payment_status,
        ) == Some("金额不能为负数"@),
        !(fee_type == "收入"@ || fee_type == "支出"@) ==> fee_refusal(
            cohort_id,
            fee_type,
            amount_negative,
            student_id,
            owner,
            payment_status,
        ) == Some("班费类型只能是“收入”或“支出”"@),
        (fee_type == "支出"@ && !amount_negative && (student_id is None || owner == Some(cohort_id))
            && (payment_status == Some("待缴费"@) || payment_status == Some("已缴费"@)
            || payment_status == Some("欠费"@))) ==> fee_refusal(
            cohort_id,
            fee_type,
            amount_negative,
            student_id,
            owner,
            payment_status,
        ) == Some("支出记录不应设置缴费状态"@),
{
    reveal_strlit("收入");
    reveal_strlit("支出");
    assert("收入"@[0] != "支出"@[0]);
}

} // verus!
