use vstd::prelude::*;

use crate::membership::{
    belongs, find_first_false, find_outsider, first_false, first_outsider, lemma_first_false, lemma_first_outsider,
    outsider_message, outsider_text,
};
use crate::text::{push_str, str_eq};

verus! {

/// One attendance record of a student on a date.
#[derive(Debug)]
pub struct Attendance {
    pub id: i64,
    pub cohort_id: i64,
    pub student_id: i64,
    pub attendance_date: String,
    pub status: String,
    pub reason: Option<String>,
    pub remark: Option<String>,
    pub created_at: String,
    pub updated_at: String,
}

/// What a teacher records for one student on a date.
#[derive(Debug)]
pub struct AttendanceRecord {
    pub student_id: i64,
    pub status: String,
    pub reason: Option<String>,
    pub remark: Option<String>,
}

/// The five attendance statuses: present, late, left early, on leave, absent.
pub open spec fn valid_attendance_status(s: Seq<char>) -> bool {
    s == "正常"@ || s == "迟到"@ || s == "早退"@ || s == "请假"@ || s == "旷课"@
}

/// Whether `s` is one of the five attendance statuses.
pub fn is_valid_attendance_status(s: &str) -> (r: bool)
    ensures
        r == valid_attendance_status(s@),
{
    str_eq(s, "正常") || str_eq(s, "迟到") || str_eq(s, "早退") || str_eq(s, "请假") || str_eq(s, "旷课")
}

/// Whether each record's status is valid.
pub open spec fn status_flags(records: Seq<AttendanceRecord>) -> Seq<bool> {
    records.map_values(|r: AttendanceRecord| valid_attendance_status(r.status@))
}

/// Why a day's attendance cannot be saved, or `None` when it can: the first
/// record whose student is not a member of the cohort (`owners[j]` is the
/// cohort of record `j`'s student, `None` when it does not exist or is
/// deleted); otherwise the first record with an invalid status.
pub open spec fn attendance_refusal(cohort_id: i64, records: Seq<AttendanceRecord>, owners: Seq<Option<i64>>) -> Option<Seq<char>> {
    match first_outsider(owners, cohort_id) {
        Some(j) => Some(outsider_text(records[j].student_id, cohort_id, owners[j])),
        None => match first_false(status_flags(records)) {
            Some(j) => Some("无效的考勤状态: "@ + records[j].status@),
            None => None,
        },
    }
}

/// Decides whether a day's attendance records may be saved; when they may,
/// all of them are written, and otherwise none is.
pub fn check_attendance_batch(cohort_id: i64, records: &Vec<AttendanceRecord>, owners: &Vec<Option<i64>>) -> (r: Result<(), String>)
    requires
        owners.len() == records.len(),
    ensures
        match r {
            Ok(_) => attendance_refusal(cohort_id, records@, owners@) is None,
            Err(e) => attendance_refusal(cohort_id, records@, owners@) == Some(e@),
        },
{
    match find_outsider(owners, cohort_id) {
        Some(j) => {
            return Err(outsider_message(records[j].student_id, cohort_id, owners[j]));
        },
        None => {},
    }
    let mut flags: Vec<bool> = Vec::new();
    let mut i: usize = 0;
    while i < records.len()
        invariant
            i <= records.len(),
            flags@ == status_flags(records@).take(i as int),
        decreases records.len() - i,
    {
        flags.push(is_valid_attendance_status(records[i].status.as_str()));
        proof {
            assert(status_flags(records@).take(i + 1) =~= status_flags(records@).take(i as int).push(
                valid_attendance_status(records@[i as int].status@),
            ));
        }
        i = i + 1;
    }
    proof {
        assert(status_flags(records@).take(records.len() as int) =~= status_flags(records@));
    }
    match find_first_false(&flags) {
        Some(j) => {
            let mut m = String::new();
            push_str(&mut m, "无效的考勤状态: ");
            push_str(&mut m, records[j].status.as_str());
            proof {
                assert(m@ =~= "无效的考勤状态: "@ + records@[j as int].status@);
            }
            Err(m)
        },
        None => Ok(()),
    }
}

/// Record `j` of a day's attendance may be saved: its student belongs to
/// the cohort and its status is one of the five.
pub open spec fn record_acceptable(cohort_id: i64, records: Seq<AttendanceRecord>, owners: Seq<Option<i64>>, j: int) -> bool {
    belongs(owners[j], cohort_id) && valid_attendance_status(records[j].status@)
}

/// A day's attendance is saved exactly when every record may be saved;
/// otherwise nothing is saved.
pub proof fn law_attendance_saved_only_when_all_valid(cohort_id: i64, records: Seq<AttendanceRecord>, owners: Seq<Option<i64>>)
    requires
        owners.len() == records.len(),
    ensures
        attendance_refusal(cohort_id, records, owners) is None <==> (forall|j: int|
            0 <= j < records.len() ==> #[trigger] record_acceptable(cohort_id, records, owners, j)),
{
    lemma_first_outsider(owners, cohort_id);
    lemma_first_false(status_flags(records));
    let flags = status_flags(records);
    if first_outsider(owners, cohort_id) is Some {
        let j = first_outsider(owners, cohort_id).unwrap();
        assert(!record_acceptable(cohort_id, records, owners, j));
    } else if first_false(flags) is Some {
        let j = first_false(flags).unwrap();
        assert(!flags[j]);
        assert(!record_acceptable(cohort_id, records, owners, j));
    } else {
        assert forall|j: int| 0 <= j < records.len() implies #[trigger] record_acceptable(cohort_id, records, owners, j) by {
            assert(flags[j]);
            assert(belongs(owners[j], cohort_id));
        }
    }
}

/// A day's attendance whose students all belong to the cohort is saved when
/// every status is one of 正常, 迟到, 早退, 请假 and 旷课; when one is not,
/// the first such status is named in the refusal.
pub proof fn law_attendance_statuses(cohort_id: i64, records: Seq<AttendanceRecord>, owners: Seq<Option<i64>>)
    requires
        owners.len() == records.len(),
        forall|j: int| 0 <= j < owners.len() ==> #[trigger] owners[j] == Some(cohort_id),
    ensures
        (forall|j: int|
            0 <= j < records.len() ==> {
                let s = #[trigger] records[j].status@;
                s == "正常"@ || s == "迟到"@ || s == "早退"@ || s == "请假"@ || s == "旷课"@
            }) ==> attendance_refusal(cohort_id, records, owners) is None,
        forall|k: int|
            0 <= k < records.len() && !({
                let s = #[trigger] records[k].status@;
                s == "正常"@ || s == "迟到"@ || s == "早退"@ || s == "请假"@ || s == "旷课"@
            }) ==> exists|j: int|
                0 <= j <= k && attendance_refusal(cohort_id, records, owners) == Some(
                    "无效的考勤状态: "@ + #[trigger] records[j].status@,
                ),
{
    lemma_first_outsider(owners, cohort_id);
    lemma_first_false(status_flags(records));
    assert(first_outsider(owners, cohort_id) is None) by {
        if first_outsider(owners, cohort_id) is Some {
            let j = first_outsider(owners, cohort_id).unwrap();
            assert(owners[j] == Some(cohort_id));
        }
    }
    let flags = status_flags(records);
    assert forall|k: int|
        0 <= k < records.len() && !({
            let s = #[trigger] records[k].status@;
            s == "正常"@ || s == "迟到"@ || s == "早退"@ || s == "请假"@ || s == "旷课"@
        }) implies exists|j: int|
        0 <= j <= k && attendance_refusal(cohort_id, records, owners) == Some(
            "无效的考勤状态: "@ + #[trigger] records[j].status@,
        ) by {
        assert(!flags[k]);
        let j = first_false(flags).unwrap();
        assert(attendance_refusal(cohort_id, records, owners) == Some("无效的考勤状态: "@ + records[j].status@));
    }
    if first_false(flags) is Some {
        let j = first_false(flags).unwrap();
        assert(!flags[j]);
    }
}

} // verus!
