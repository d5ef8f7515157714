use vstd::prelude::*;

use crate::text::{decimal_int, push_decimal_i64, push_str};

verus! {

/// Whether a student whose cohort is `owner` (`None` when the student does
/// not exist or is deleted) belongs to cohort `cohort_id`.
pub open spec fn belongs(owner: Option<i64>, cohort_id: i64) -> bool {
    owner == Some(cohort_id)
}

/// The first position whose student does not belong to the cohort, if any.
pub open spec fn first_outsider(owners: Seq<Option<i64>>, cohort_id: i64) -> Option<int>
    decreases owners.len(),
{
    if owners.len() == 0 {
        None
    } else {
        match first_outsider(owners.drop_last(), cohort_id) {
            Some(j) => Some(j),
            None => if belongs(owners.last(), cohort_id) {
                None
            } else {
                Some(owners.len() - 1)
            },
        }
    }
}

/// The first outsider is the least position whose student does not belong.
pub proof fn lemma_first_outsider(owners: Seq<Option<i64>>, cohort_id: i64)
    ensures
        first_outsider(owners, cohort_id) is None <==> (forall|j: int|
            0 <= j < owners.len() ==> belongs(#[trigger] owners[j], cohort_id)),
        first_outsider(owners, cohort_id) matches Some(j) ==> 0 <= j < owners.len() && !belongs(
            owners[j],
            cohort_id,
        ) && forall|m: int| 0 <= m < j ==> belongs(#[trigger] owners[m], cohort_id),
    decreases owners.len(),
{
    if owners.len() > 0 {
        let init = owners.drop_last();
        lemma_first_outsider(init, cohort_id);
        assert forall|j: int| 0 <= j < init.len() implies init[j] == owners[j] by {}
    }
}

/// The first position of `owners` whose student does not belong to
/// `cohort_id`, or `None` when all do.
pub fn find_outsider(owners: &Vec<Option<i64>>, cohort_id: i64) -> (r: Option<usize>)
    ensures
        match r {
            Some(j) => j < owners.len() && first_outsider(owners@, cohort_id) == Some(j as int),
            None => first_outsider(owners@, cohort_id) is None,
        },
{
    let mut i: usize = 0;
    proof {
        lemma_first_outsider(owners@, cohort_id);
    }
    while i < owners.len()
        invariant
            i <= owners.len(),
            forall|m: int| 0 <= m < i ==> belongs(#[trigger] owners@[m], cohort_id),
            first_outsider(owners@, cohort_id) is None <==> (forall|j: int|
                0 <= j < owners@.len() ==> belongs(#[trigger] owners@[j], cohort_id)),
            first_outsider(owners@, cohort_id) matches Some(j) ==> 0 <= j < owners@.len()
                && !belongs(owners@[j], cohort_id) && forall|m: int|
                0 <= m < j ==> belongs(#[trigger] owners@[m], cohort_id),
        decreases owners.len() - i,
    {
        let ok = match owners[i] {
            Some(c) => c == cohort_id,
            None => false,
        };
        if !ok {
            proof {
                assert(!belongs(owners@[i as int], cohort_id));
                let f = first_outsider(owners@, cohort_id);
                assert(f is Some);
                let j = f.unwrap();
                if j < i {
                    assert(belongs(owners@[j], cohort_id));
                }
                if j > i {
                    assert(belongs(owners@[i as int], cohort_id));
                }
            }
            return Some(i);
        }
        i = i + 1;
    }
    None
}

/// `学生 ID {id} 不存在或已删除`.
pub open spec fn missing_student_text(student_id: i64) -> Seq<char> {
    "学生 ID "@ + decimal_int(student_id as int) + " 不存在或已删除"@
}

/// `学生 ID {id} 不属于届次 {cohort} (学生届次: {owner})`.
pub open spec fn foreign_student_text(student_id: i64, cohort_id: i64, owner: i64) -> Seq<char> {
    "学生 ID "@ + decimal_int(student_id as int) + " 不属于届次 "@ + decimal_int(cohort_id as int)
        + " (学生届次: "@ + decimal_int(owner as int) + ")"@
}

/// The message that refuses a student who is not a member of the cohort.
pub open spec fn outsider_text(student_id: i64, cohort_id: i64, owner: Option<i64>) -> Seq<char> {
    match owner {
        None => missing_student_text(student_id),
        Some(c) => foreign_student_text(student_id, cohort_id, c),
    }
}

/// The message that refuses a student who is not a member of the cohort.
pub fn outsider_message(student_id: i64, cohort_id: i64, owner: Option<i64>) -> (r: String)
    ensures
        r@ == outsider_text(student_id, cohort_id, owner),
{
    let mut m = String::new();
    push_str(&mut m, "学生 ID ");
    push_decimal_i64(&mut m, student_id);
    match owner {
        None => {
            push_str(&mut m, " 不存在或已删除");
            proof {
                assert(m@ =~= missing_student_text(student_id));
            }
        },
        Some(c) => {
            push_str(&mut m, " 不属于届次 ");
            push_decimal_i64(&mut m, cohort_id);
            push_str(&mut m, " (学生届次: ");
            push_decimal_i64(&mut m, c);
            push_str(&mut m, ")");
            proof {
                assert(m@ =~= foreign_student_text(student_id, cohort_id, c));
            }
        },
    }
    m
}

/// Checks that one student belongs to a cohort, `owner` being the cohort of
/// the student (`None` when it does not exist or is deleted).
pub fn check_student_in_cohort(student_id: i64, cohort_id: i64, owner: Option<i64>) -> (r: Result<(), String>)
    ensures
        r is Ok <==> belongs(owner, cohort_id),
        r matches Err(e) ==> e@ == outsider_text(student_id, cohort_id, owner),
{
    match owner {
        Some(c) => if c == cohort_id {
            return Ok(());
        },
        None => {},
    }
    Err(outsider_message(student_id, cohort_id, owner))
}

/// The first position whose flag is false, if any.
pub open spec fn first_false(flags: Seq<bool>) -> Option<int>
    decreases flags.len(),
{
    if flags.len() == 0 {
        None
    } else {
        match first_false(flags.drop_last()) {
            Some(j) => Some(j),
            None => if flags.last() {
                None
            } else {
                Some(flags.len() - 1)
            },
        }
    }
}

/// The first false flag is the least position whose flag is false.
pub proof fn lemma_first_false(flags: Seq<bool>)
    ensures
        first_false(flags) is None <==> (forall|j: int| 0 <= j < flags.len() ==> #[trigger] flags[j]),
        first_false(flags) matches Some(j) ==> 0 <= j < flags.len() && !flags[j] && forall|m: int|
            0 <= m < j ==> #[trigger] flags[m],
    decreases flags.len(),
{
    if flags.len() > 0 {
        let init = flags.drop_last();
        lemma_first_false(init);
        assert forall|j: int| 0 <= j < init.len() implies init[j] == flags[j] by {}
    }
}

/// The first position of `flags` that is false, or `None`.
pub fn find_first_false(flags: &Vec<bool>) -> (r: Option<usize>)
    ensures
        match r {
            Some(j) => j < flags.len() && first_false(flags@) == Some(j as int),
            None => first_false(flags@) is None,
        },
{
    let mut i: usize = 0;
    proof {
        lemma_first_false(flags@);
    }
    while i < flags.len()
        invariant
            i <= flags.len(),
            forall|m: int| 0 <= m < i ==> #[trigger] flags@[m],
            first_false(flags@) is None <==> (forall|j: int| 0 <= j < flags@.len() ==> #[trigger] flags@[j]),
            first_false(flags@) matches Some(j) ==> 0 <= j < flags@.len() && !flags@[j] && forall|m: int|
                0 <= m < j ==> #[trigger] flags@[m],
        decreases flags.len() - i,
    {
        if !flags[i] {
            proof {
                let f = first_false(flags@);
                assert(f is Some);
                let j = f.unwrap();
                if j < i {
                    assert(flags@[j]);
                }
                if j > i {
                    assert(flags@[i as int]);
                }
            }
            return Some(i);
        }
        i = i + 1;
    }
    None
}

} // verus!
