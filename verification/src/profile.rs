use vstd::prelude::*;

use crate::text::{decimal_int, join, join_strings, push_decimal_i64, push_str, views};

verus! {

/// Why a student deserves close attention: marked so by the teacher, at
/// least three homework in a row not handed in, at least three abnormal
/// attendance records, or a negative behaviour score in all.
pub open spec fn focus_reason_texts(is_focus: bool, consecutive: i64, abnormal: i64, behavior_total: i64) -> Seq<Seq<char>> {
    let r1: Seq<Seq<char>> = if is_focus {
        seq!["已被标记为重点关注"@]
    } else {
        Seq::empty()
    };
    let r2: Seq<Seq<char>> = if consecutive >= 3 {
        seq!["连续未交作业 "@ + decimal_int(consecutive as int) + " 次"@]
    } else {
        Seq::empty()
    };
    let r3: Seq<Seq<char>> = if abnormal >= 3 {
        seq!["考勤异常 "@ + decimal_int(abnormal as int) + " 次"@]
    } else {
        Seq::empty()
    };
    let r4: Seq<Seq<char>> = if behavior_total < 0 {
        seq!["奖惩累计分值为 "@ + decimal_int(behavior_total as int)]
    } else {
        Seq::empty()
    };
    r1 + r2 + r3 + r4
}

/// The reasons, in this order, why a student deserves close attention.
pub fn focus_reasons(is_focus: bool, consecutive: i64, abnormal: i64, behavior_total: i64) -> (r: Vec<String>)
    ensures
        views(r@) == focus_reason_texts(is_focus, consecutive, abnormal, behavior_total),
{
    let mut r: Vec<String> = Vec::new();
    let ghost mut acc: Seq<Seq<char>> = Seq::empty();
    proof {
        assert(views(r@) =~= acc);
    }
    if is_focus {
        let mut m = String::new();
        push_str(&mut m, "已被标记为重点关注");
        r.push(m);
        proof {
            acc = acc.push("已被标记为重点关注"@);
            assert(m@ =~= "已被标记为重点关注"@);
            assert(views(r@) =~= acc);
        }
    }
    if consecutive >= 3 {
        let mut m = String::new();
        push_str(&mut m, "连续未交作业 ");
        push_decimal_i64(&mut m, consecutive);
        push_str(&mut m, " 次");
        r.push(m);
        proof {
            acc = acc.push("连续未交作业 "@ + decimal_int(consecutive as int) + " 次"@);
            assert(m@ =~= "连续未交作业 "@ + decimal_int(consecutive as int) + " 次"@);
            assert(views(r@) =~= acc);
        }
    }
    if abnormal >= 3 {
        let mut m = String::new();
        push_str(&mut m, "考勤异常 ");
        push_decimal_i64(&mut m, abnormal);
        push_str(&mut m, " 次");
        r.push(m);
        proof {
            acc = acc.push("考勤异常 "@ + decimal_int(abnormal as int) + " 次"@);
            assert(m@ =~= "考勤异常 "@ + decimal_int(abnormal as int) + " 次"@);
            assert(views(r@) =~= acc);
        }
    }
    if behavior_total < 0 {
        let mut m = String::new();
        push_str(&mut m, "奖惩累计分值为 ");
        push_decimal_i64(&mut m, behavior_total);
        r.push(m);
        proof {
            acc = acc.push("奖惩累计分值为 "@ + decimal_int(behavior_total as int));
            assert(m@ =~= "奖惩累计分值为 "@ + decimal_int(behavior_total as int));
            assert(views(r@) =~= acc);
        }
    }
    proof {
        assert(acc =~= focus_reason_texts(is_focus, consecutive, abnormal, behavior_total));
    }
    r
}

/// The overall evaluation of a student: steady without a reason for
/// attention, otherwise a call to follow the reasons up.
pub open spec fn evaluation_text(reasons: Seq<Seq<char>>) -> Seq<char> {
    if reasons.len() == 0 {
        "整体表现稳定，可继续保持当前跟进节奏。"@
    } else {
        "建议重点跟进："@ + join(reasons, "；"@) + "。"@
    }
}

/// The overall evaluation of a student with these reasons for attention.
pub fn overall_evaluation(reasons: &Vec<String>) -> (r: String)
    ensures
        r@ == evaluation_text(views(reasons@)),
{
    let mut m = String::new();
    if reasons.len() == 0 {
        push_str(&mut m, "整体表现稳定，可继续保持当前跟进节奏。");
    } else {
        push_str(&mut m, "建议重点跟进：");
        let joined = join_strings(reasons, "；");
        push_str(&mut m, joined.as_str());
        push_str(&mut m, "。");
    }
    proof {
        assert(m@ =~= evaluation_text(views(reasons@)));
    }
    m
}

/// The sum of the scores.
pub open spec fn score_sum(s: Seq<i64>) -> int
    decreases s.len(),
{
    if s.len() == 0 {
        0
    } else {
        score_sum(s.drop_last()) + s.last()
    }
}

/// Every running total of the scores fits in an `i64`.
pub open spec fn sums_fit(s: Seq<i64>) -> bool {
    forall|k: int| 0 <= k <= s.len() ==> i64::MIN <= #[trigger] score_sum(s.take(k)) <= i64::MAX
}

/// The total score of a student's behaviour records.
pub fn behavior_score_total(scores: &Vec<i64>) -> (r: i64)
    requires
        sums_fit(scores@),
    ensures
        r == score_sum(scores@),
{
    let mut total: i64 = 0;
    let mut i: usize = 0;
    proof {
        assert(scores@.take(0) =~= Seq::<i64>::empty());
    }
    while i < scores.len()
        invariant
            i <= scores.len(),
            sums_fit(scores@),
            total == score_sum(scores@.take(i as int)),
        decreases scores.len() - i,
    {
        proof {
            assert(scores@.take(i + 1).drop_last() =~= scores@.take(i as int));
            assert(i64::MIN <= score_sum(scores@.take(i + 1)) <= i64::MAX);
        }
        total = total + scores[i];
        i = i + 1;
    }
    proof {
        assert(scores@.take(scores.len() as int) =~= scores@);
    }
    total
}

/// The lines that list the reasons for attention in a growth archive: `无`
/// without any, otherwise one `- reason` line each.
pub open spec fn reason_lines(reasons: Seq<Seq<char>>) -> Seq<Seq<char>> {
    if reasons.len() == 0 {
        seq!["无"@]
    } else {
        reasons.map_values(|x: Seq<char>| "- "@ + x)
    }
}

/// The lines that list the reasons for attention in a growth archive.
pub fn focus_reason_lines(reasons: &Vec<String>) -> (r: Vec<String>)
    ensures
        views(r@) == reason_lines(views(reasons@)),
{
    let mut r: Vec<String> = Vec::new();
    if reasons.len() == 0 {
        let mut m = String::new();
        push_str(&mut m, "无");
        r.push(m);
        proof {
            assert(views(r@) =~= reason_lines(views(reasons@)));
        }
        return r;
    }
    let mut i: usize = 0;
    while i < reasons.len()
        invariant
            i <= reasons.len(),
            reasons.len() > 0,
            views(r@) == views(reasons@).take(i as int).map_values(|x: Seq<char>| "- "@ + x),
        decreases reasons.len() - i,
    {
        let mut m = String::new();
        push_str(&mut m, "- ");
        push_str(&mut m, reasons[i].as_str());
        let ghost prev = views(r@);
        proof {
            assert(m@ =~= "- "@ + views(reasons@)[i as int]);
        }
        r.push(m);
        proof {
            assert(views(r@) =~= prev.push(m@));
            assert(views(r@) =~= views(reasons@).take(i + 1).map_values(|x: Seq<char>| "- "@ + x));
        }
        i = i + 1;
    }
    proof {
        assert(views(reasons@).take(reasons.len() as int) =~= views(reasons@));
    }
    r
}

/// Whether nobody's attendance has been taken today: the five daily counts
/// add up to zero.
pub fn attendance_pending(normal: i64, late: i64, early: i64, on_leave: i64, absent: i64) -> (r: bool)
    requires
        0 <= normal,
        0 <= late,
        0 <= early,
        0 <= on_leave,
        0 <= absent,
        normal + late + early + on_leave + absent <= i64::MAX,
    ensures
        r == (normal + late + early + on_leave + absent == 0),
{
    normal + late + early + on_leave + absent == 0
}

/// A stable evaluation is given exactly when there is no reason for
/// attention: none of the four warning signs is present.
pub proof fn law_stable_without_reasons(is_focus: bool, consecutive: i64, abnormal: i64, behavior_total: i64)
    ensures
        (evaluation_text(focus_reason_texts(is_focus, consecutive, abnormal, behavior_total))
            == "整体表现稳定，可继续保持当前跟进节奏。"@) <== (!is_focus && consecutive < 3 && abnormal < 3
            && behavior_total >= 0),
        (focus_reason_texts(is_focus, consecutive, abnormal, behavior_total).len() == 0) <==> (!is_focus
            && consecutive < 3 && abnormal < 3 && behavior_total >= 0),
{
    let r = focus_reason_texts(is_focus, consecutive, abnormal, behavior_total);
    if !is_focus && consecutive < 3 && abnormal < 3 && behavior_total >= 0 {
        assert(r =~= Seq::<Seq<char>>::empty());
    }
}

} // verus!
