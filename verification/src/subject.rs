use vstd::prelude::*;

use crate::text::{contains_str, has_substring, push_str};

verus! {

/// A school subject.
#[derive(Debug)]
pub struct Subject {
    pub id: i64,
    pub name: String,
    pub sort_order: i64,
    pub is_active: bool,
    pub remark: Option<String>,
    pub created_at: String,
    pub updated_at: String,
}

/// The query that lists subjects, active ones first, then by their order.
pub open spec fn subject_list_query(active_only: bool) -> Seq<char> {
    if active_only {
        "SELECT * FROM subject"@ + " WHERE is_active = 1"@ + " ORDER BY is_active DESC, sort_order ASC, id ASC"@
    } else {
        "SELECT * FROM subject"@ + " ORDER BY is_active DESC, sort_order ASC, id ASC"@
    }
}

/// Builds the query that lists subjects; only active ones where asked.
pub fn build_subject_query(active_only: Option<bool>) -> (r: String)
    ensures
        r@ == subject_list_query(active_only == Some(true)),
{
    let mut q = String::new();
    push_str(&mut q, "SELECT * FROM subject");
    let only = match active_only {
        Some(b) => b,
        None => false,
    };
    if only {
        push_str(&mut q, " WHERE is_active = 1");
    }
    push_str(&mut q, " ORDER BY is_active DESC, sort_order ASC, id ASC");
    proof {
        assert(q@ =~= subject_list_query(active_only == Some(true)));
    }
    q
}

/// Why a subject cannot be deleted, or `None`: first whether homework that
/// is not deleted, or any score, refers to it; then whether it is active.
pub open spec fn subject_delete_refusal(homework_refs: i64, score_refs: i64, is_active: bool) -> Option<Seq<char>> {
    if homework_refs > 0 || score_refs > 0 {
        Some("科目已被历史作业或成绩引用，请先停用，不能直接物理删除"@)
    } else if is_active {
        Some("请先停用科目，再执行删除"@)
    } else {
        None
    }
}

/// Decides whether a subject may be deleted outright.
pub fn check_subject_deletable(homework_refs: i64, score_refs: i64, is_active: bool) -> (r: Result<(), String>)
    ensures
        match r {
            Ok(_) => subject_delete_refusal(homework_refs, score_refs, is_active) is None,
            Err(e) => subject_delete_refusal(homework_refs, score_refs, is_active) == Some(e@),
        },
{
    let mut m = String::new();
    if homework_refs > 0 || score_refs > 0 {
        push_str(&mut m, "科目已被历史作业或成绩引用，请先停用，不能直接物理删除");
    } else if is_active {
        push_str(&mut m, "请先停用科目，再执行删除");
    } else {
        return Ok(());
    }
    proof {
        assert(m@ =~= subject_delete_refusal(homework_refs, score_refs, is_active).unwrap());
    }
    Err(m)
}

/// The message for a failed write whose database error is `db_error`: a
/// uniqueness violation (the error mentions `UNIQUE`) reads `unique`, any
/// other error `prefix` followed by the error.
pub open spec fn write_error_text(db_error: Seq<char>, unique: Seq<char>, prefix: Seq<char>) -> Seq<char> {
    if has_substring(db_error, "UNIQUE"@) {
        unique
    } else {
        prefix + db_error
    }
}

/// The message for a failed write, as creating a subject or a student
/// reports it.
pub fn write_error_message(db_error: &str, unique: &str, prefix: &str) -> (r: String)
    ensures
        r@ == write_error_text(db_error@, unique@, prefix@),
{
    let mut m = String::new();
    if contains_str(db_error, "UNIQUE") {
        push_str(&mut m, unique);
    } else {
        push_str(&mut m, prefix);
        push_str(&mut m, db_error);
    }
    proof {
        assert(m@ =~= write_error_text(db_error@, unique@, prefix@));
    }
    m
}

/// The subjects every database starts with: Chinese, mathematics, English,
/// physics, chemistry, biology, history, geography, politics.
pub open spec fn default_subject_names() -> Seq<Seq<char>> {
    seq!["语文"@, "数学"@, "英语"@, "物理"@, "化学"@, "生物"@, "历史"@, "地理"@, "政治"@]
}

/// The names of the subjects every database starts with.
pub fn default_subjects() -> (r: Vec<&'static str>)
    ensures
        r@.map_values(|s: &str| s@) == default_subject_names(),
{
    let v = vec!["语文", "数学", "英语", "物理", "化学", "生物", "历史", "地理", "政治"];
    proof {
        assert(v@.map_values(|s: &str| s@) =~= default_subject_names());
    }
    v
}
} // verus!
