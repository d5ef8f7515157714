use vstd::prelude::*;

use crate::text::{push_char, decimal_int, i64_to_string, join, join_strings, push_decimal_i64, push_str, views};

verus! {

/// `?n`: the placeholder of the `n`-th bound parameter.
pub open spec fn placeholder(n: int) -> Seq<char> {
    seq!['?'] + decimal_int(n)
}

/// `%s%`: a `LIKE` pattern that matches any text containing `s`.
pub open spec fn contains_pattern(s: Seq<char>) -> Seq<char> {
    seq!['%'] + s + seq!['%']
}

/// Builds `%s%`.
pub fn like_pattern(s: &str) -> (r: String)
    ensures
        r@ == contains_pattern(s@),
{
    let mut r = String::new();
    push_char(&mut r, '%');
    push_str(&mut r, s);
    push_char(&mut r, '%');
    proof {
        assert(r@ =~= contains_pattern(s@));
    }
    r
}

/// The conditions that filter affair records (notices, duties, behaviour
/// records) of table alias `alias`, numbering parameters from `start`.
pub open spec fn affair_clauses(alias: Seq<char>, start: int, search: bool, student: bool, kind: bool) -> Seq<Seq<char>> {
    let c0 = alias + ".cohort_id = "@ + placeholder(start);
    let i1 = start + 1;
    let s1: Seq<Seq<char>> = if search {
        seq![
            "("@ + alias + ".title LIKE "@ + placeholder(i1) + " OR "@ + alias + ".content LIKE "@
                + placeholder(i1) + ")"@,
        ]
    } else {
        Seq::empty()
    };
    let i2 = if search {
        i1 + 1
    } else {
        i1
    };
    let s2: Seq<Seq<char>> = if student {
        seq![alias + ".student_id = "@ + placeholder(i2)]
    } else {
        Seq::empty()
    };
    let i3 = if student {
        i2 + 1
    } else {
        i2
    };
    let s3: Seq<Seq<char>> = if kind {
        seq![alias + ".type = "@ + placeholder(i3)]
    } else {
        Seq::empty()
    };
    seq![c0] + s1 + s2 + s3
}

/// The parameters bound to the affair conditions, in placeholder order.
pub open spec fn affair_params(cohort_id: i64, search: Option<Seq<char>>, student_id: Option<i64>, kind: Option<Seq<char>>) -> Seq<Seq<char>> {
    let p1: Seq<Seq<char>> = match search {
        Some(s) => seq![contains_pattern(s)],
        None => Seq::empty(),
    };
    let p2: Seq<Seq<char>> = match student_id {
        Some(id) => seq![decimal_int(id as int)],
        None => Seq::empty(),
    };
    let p3: Seq<Seq<char>> = match kind {
        Some(k) => seq![k],
        None => Seq::empty(),
    };
    seq![decimal_int(cohort_id as int)] + p1 + p2 + p3
}

pub open spec fn opt_view(o: Option<String>) -> Option<Seq<char>> {
    match o {
        Some(s) => Some(s@),
        None => None,
    }
}

fn clause_eq(alias: &str, column: &str, idx: i64) -> (r: String)
    ensures
        r@ == alias@ + column@ + placeholder(idx as int),
{
    let mut r = String::new();
    push_str(&mut r, alias);
    push_str(&mut r, column);
    push_char(&mut r, '?');
    push_decimal_i64(&mut r, idx);
    proof {
        assert(r@ =~= alias@ + column@ + placeholder(idx as int));
    }
    r
}

/// The `WHERE` conditions joined by `AND`, and the parameters they bind, that
/// select affair records of a cohort: by cohort, by a search text in title or
/// content, by student and by record type. `_start_date` is accepted and not
/// used. Parameters are numbered from `start_idx`.
pub fn build_affair_where(
    alias: &str,
    cohort_id: i64,
    search: Option<String>,
    student_id: Option<i64>,
    record_type: Option<String>,
    _start_date: Option<String>,
    start_idx: i64,
) -> (r: (String, Vec<String>))
    requires
        start_idx + 1 + (if search is Some {
            1int
        } else {
            0int
        }) + (if student_id is Some {
            1int
        } else {
            0int
        }) <= i64::MAX,
    ensures
        r.0@ == join(
            affair_clauses(alias@, start_idx as int, search is Some, student_id is Some, record_type is Some),
            " AND "@,
        ),
        views(r.1@) == affair_params(cohort_id, opt_view(search), student_id, opt_view(record_type)),
{
    let mut clauses: Vec<String> = Vec::new();
    let mut params: Vec<String> = Vec::new();
    clauses.push(clause_eq(alias, ".cohort_id = ", start_idx));
    params.push(i64_to_string(cohort_id));
    let mut idx = start_idx + 1;
    let ghost c_acc = seq![alias@ + ".cohort_id = "@ + placeholder(start_idx as int)];
    let ghost p_acc = seq![decimal_int(cohort_id as int)];
    proof {
        assert(views(clauses@) =~= c_acc);
        assert(views(params@) =~= p_acc);
    }
    let ghost has_search = search is Some;
    let ghost search_v = opt_view(search);
    if let Some(s) = search {
        let mut c = String::new();
        push_str(&mut c, "(");
        push_str(&mut c, alias);
        push_str(&mut c, ".title LIKE ");
        push_char(&mut c, '?');
        push_decimal_i64(&mut c, idx);
        push_str(&mut c, " OR ");
        push_str(&mut c, alias);
        push_str(&mut c, ".content LIKE ");
        push_char(&mut c, '?');
        push_decimal_i64(&mut c, idx);
        push_str(&mut c, ")");
        proof {
            assert(c@ =~= "("@ + alias@ + ".title LIKE "@ + placeholder(idx as int) + " OR "@ + alias@
                + ".content LIKE "@ + placeholder(idx as int) + ")"@);
        }
        clauses.push(c);
        params.push(like_pattern(s.as_str()));
        idx = idx + 1;
    }
    proof {
        let s1: Seq<Seq<char>> = if has_search {
            seq![
                "("@ + alias@ + ".title LIKE "@ + placeholder(start_idx + 1) + " OR "@ + alias@
                    + ".content LIKE "@ + placeholder(start_idx + 1) + ")"@,
            ]
        } else {
            Seq::empty()
        };
        let p1: Seq<Seq<char>> = match search_v {
            Some(s) => seq![contains_pattern(s)],
            None => Seq::empty(),
        };
        assert(views(clauses@) =~= c_acc + s1);
        assert(views(params@) =~= p_acc + p1);
        c_acc = c_acc + s1;
        p_acc = p_acc + p1;
    }
    let ghost idx2 = idx;
    if let Some(sid) = student_id {
        clauses.push(clause_eq(alias, ".student_id = ", idx));
        params.push(i64_to_string(sid));
        idx = idx + 1;
    }
    proof {
        let s2: Seq<Seq<char>> = if student_id is Some {
            seq![alias@ + ".student_id = "@ + placeholder(idx2 as int)]
        } else {
            Seq::empty()
        };
        let p2: Seq<Seq<char>> = match student_id {
            Some(id) => seq![decimal_int(id as int)],
            None => Seq::empty(),
        };
        assert(views(clauses@) =~= c_acc + s2);
        assert(views(params@) =~= p_acc + p2);
        c_acc = c_acc + s2;
        p_acc = p_acc + p2;
    }
    let ghost idx3 = idx;
    let ghost kind_v = opt_view(record_type);
    if let Some(rt) = record_type {
        clauses.push(clause_eq(alias, ".type = ", idx));
        params.push(rt);
    }
    proof {
        let s3: Seq<Seq<char>> = if kind_v is Some {
            seq![alias@ + ".type = "@ + placeholder(idx3 as int)]
        } else {
            Seq::empty()
        };
        let p3: Seq<Seq<char>> = match kind_v {
            Some(k) => seq![k],
            None => Seq::empty(),
        };
        assert(views(clauses@) =~= c_acc + s3);
        assert(views(params@) =~= p_acc + p3);
        assert(c_acc + s3 =~= affair_clauses(alias@, start_idx as int, has_search, student_id is Some, kind_v is Some));
    }
    (join_strings(&clauses, " AND "), params)
}


/// One condition of a `WHERE` clause, as the statement builders describe it.
pub enum Cond {
    /// A condition that binds no parameter.
    Fixed(Seq<char>),
    /// `before ?n after`, binding `value` as parameter `n`.
    One(Seq<char>, Seq<char>, Seq<char>),
    /// `a ?n b ?n c`, binding `value` once as parameter `n`.
    Two(Seq<char>, Seq<char>, Seq<char>, Seq<char>),
}

/// The rendered conditions, the bound parameters, and the next free parameter
/// number, when parameters are numbered from `start`.
pub open spec fn render(conds: Seq<Cond>, start: int) -> (Seq<Seq<char>>, Seq<Seq<char>>, int)
    decreases conds.len(),
{
    if conds.len() == 0 {
        (Seq::empty(), Seq::empty(), start)
    } else {
        let (c, p, n) = render(conds.drop_last(), start);
        match conds.last() {
            Cond::Fixed(t) => (c.push(t), p, n),
            Cond::One(before, after, v) => (c.push(before + placeholder(n) + after), p.push(v), n + 1),
            Cond::Two(a, b, cc, v) => (
                c.push(a + placeholder(n) + b + placeholder(n) + cc),
                p.push(v),
                n + 1,
            ),
        }
    }
}

/// Each condition renders to one clause, and the parameters are numbered
/// consecutively: the next free number is the first one plus the number of
/// bound parameters, so placeholders added after the conditions (such as
/// the paging ones) never collide with theirs.
pub proof fn law_parameters_numbered_consecutively(conds: Seq<Cond>, start: int)
    ensures
        render(conds, start).0.len() == conds.len(),
        render(conds, start).2 == start + render(conds, start).1.len(),
        start <= render(conds, start).2 <= start + conds.len(),
    decreases conds.len(),
{
    if conds.len() > 0 {
        law_parameters_numbered_consecutively(conds.drop_last(), start);
    }
}

/// Accumulates the conditions of a `WHERE` clause and the parameters they bind.
pub struct WhereBuilder {
    clauses: Vec<String>,
    params: Vec<String>,
    next: i64,
    start: Ghost<int>,
    conds: Ghost<Seq<Cond>>,
}

impl WhereBuilder {
    /// The builder holds what its conditions render to.
    pub closed spec fn wf(&self) -> bool {
        let (c, p, n) = render(self.conds@, self.start@);
        &&& views(self.clauses@) == c
        &&& views(self.params@) == p
        &&& self.next as int == n
    }

    /// The conditions added so far.
    pub closed spec fn conds(&self) -> Seq<Cond> {
        self.conds@
    }

    /// The first parameter number.
    pub closed spec fn start(&self) -> int {
        self.start@
    }

    /// The next free parameter number.
    pub closed spec fn next(&self) -> int {
        self.next as int
    }

    /// A builder with no condition, numbering parameters from `start`.
    pub fn new(start: i64) -> (r: WhereBuilder)
        ensures
            r.wf(),
            r.conds() == Seq::<Cond>::empty(),
            r.start() == start,
            r.next() == start,
    {
        let r = WhereBuilder {
            clauses: Vec::new(),
            params: Vec::new(),
            next: start,
            start: Ghost(start as int),
            conds: Ghost(Seq::empty()),
        };
        proof {
            assert(views(r.clauses@) =~= Seq::<Seq<char>>::empty());
            assert(views(r.params@) =~= Seq::<Seq<char>>::empty());
        }
        r
    }

    /// Adds a condition that binds no parameter.
    pub fn fixed(&mut self, text: &str)
        requires
            old(self).wf(),
        ensures
            final(self).wf(),
            final(self).conds() == old(self).conds().push(Cond::Fixed(text@)),
            final(self).start() == old(self).start(),
            final(self).next() == old(self).next(),
    {
        let ghost prev = self.clauses@;
        self.clauses.push(to_owned(text));
        self.conds = Ghost(self.conds@.push(Cond::Fixed(text@)));
        proof {
            assert(self.conds@.drop_last() =~= old(self).conds@);
            assert(views(self.clauses@) =~= views(prev).push(text@));
        }
    }

    /// Adds `before ?n after`, binding `value` as the next parameter `n`.
    pub fn bind(&mut self, before: &str, after: &str, value: String)
        requires
            old(self).wf(),
            old(self).next() < i64::MAX,
        ensures
            final(self).wf(),
            final(self).conds() == old(self).conds().push(Cond::One(before@, after@, value@)),
            final(self).start() == old(self).start(),
            final(self).next() == old(self).next() + 1,
    {
        let mut c = String::new();
        push_str(&mut c, before);
        push_char(&mut c, '?');
        push_decimal_i64(&mut c, self.next);
        push_str(&mut c, after);
        assert(c@ =~= before@ + placeholder(self.next as int) + after@);
        let ghost pc = self.clauses@;
        let ghost pp = self.params@;
        let ghost v = value@;
        self.clauses.push(c);
        self.params.push(value);
        self.next = self.next + 1;
        self.conds = Ghost(self.conds@.push(Cond::One(before@, after@, v)));
        proof {
            assert(self.conds@.drop_last() =~= old(self).conds@);
            assert(views(self.clauses@) =~= views(pc).push(before@ + placeholder(old(self).next as int) + after@));
            assert(views(self.params@) =~= views(pp).push(v));
        }
    }

    /// Adds `a ?n b ?n c`, binding `value` once as the next parameter `n`.
    pub fn bind_twice(&mut self, a: &str, b: &str, c: &str, value: String)
        requires
            old(self).wf(),
            old(self).next() < i64::MAX,
        ensures
            final(self).wf(),
            final(self).conds() == old(self).conds().push(Cond::Two(a@, b@, c@, value@)),
            final(self).start() == old(self).start(),
            final(self).next() == old(self).next() + 1,
    {
        let mut t = String::new();
        push_str(&mut t, a);
        push_char(&mut t, '?');
        push_decimal_i64(&mut t, self.next);
        push_str(&mut t, b);
        push_char(&mut t, '?');
        push_decimal_i64(&mut t, self.next);
        push_str(&mut t, c);
        assert(t@ =~= a@ + placeholder(self.next as int) + b@ + placeholder(self.next as int) + c@);
        let ghost pc = self.clauses@;
        let ghost pp = self.params@;
        let ghost v = value@;
        self.clauses.push(t);
        self.params.push(value);
        self.next = self.next + 1;
        self.conds = Ghost(self.conds@.push(Cond::Two(a@, b@, c@, v)));
        proof {
            let n = old(self).next as int;
            assert(self.conds@.drop_last() =~= old(self).conds@);
            assert(views(self.clauses@) =~= views(pc).push(a@ + placeholder(n) + b@ + placeholder(n) + c@));
            assert(views(self.params@) =~= views(pp).push(v));
        }
    }

    /// The conditions joined by ` AND `, the parameters, and the next free
    /// parameter number.
    pub fn finish(self) -> (r: (String, Vec<String>, i64))
        requires
            self.wf(),
        ensures
            r.0@ == join(render(self.conds(), self.start()).0, " AND "@),
            views(r.1@) == render(self.conds(), self.start()).1,
            r.2 == render(self.conds(), self.start()).2,
    {
        (join_strings(&self.clauses, " AND "), self.params, self.next)
    }
}

fn to_owned(s: &str) -> (r: String)
    ensures
        r@ == s@,
{
    crate::text::to_owned_string(s)
}

/// The conditions that filter a cohort's students: by cohort, not deleted, by
/// a search text in name or student number, by gender, group and status.
pub open spec fn student_conds(cohort_id: i64, search: Option<Seq<char>>, gender: Option<Seq<char>>, group: Option<Seq<char>>, status: Option<Seq<char>>) -> Seq<Cond> {
    let base = seq![
        Cond::One("cohort_id = "@, ""@, decimal_int(cohort_id as int)),
        Cond::Fixed("deleted_at IS NULL"@),
    ];
    let s1: Seq<Cond> = match search {
        Some(s) => seq![Cond::Two("(name LIKE "@, " OR student_no LIKE "@, ")"@, contains_pattern(s))],
        None => Seq::empty(),
    };
    let s2: Seq<Cond> = match gender {
        Some(g) => seq![Cond::One("gender = "@, ""@, g)],
        None => Seq::empty(),
    };
    let s3: Seq<Cond> = match group {
        Some(g) => seq![Cond::One("group_name = "@, ""@, g)],
        None => Seq::empty(),
    };
    let s4: Seq<Cond> = match status {
        Some(st) => seq![Cond::One("status = "@, ""@, st)],
        None => Seq::empty(),
    };
    base + s1 + s2 + s3 + s4
}

/// The conditions, parameters and next parameter number that list a cohort's
/// students (parameters numbered from 1).
pub fn build_student_where(
    cohort_id: i64,
    search: Option<String>,
    gender: Option<String>,
    group_name: Option<String>,
    status: Option<String>,
) -> (r: (String, Vec<String>, i64))
    ensures
        ({
            let rd = render(student_conds(cohort_id, opt_view(search), opt_view(gender), opt_view(group_name), opt_view(status)), 1);
            r.0@ == join(rd.0, " AND "@) && views(r.1@) == rd.1 && r.2 == rd.2
        }),
{
    let ghost want = student_conds(cohort_id, opt_view(search), opt_view(gender), opt_view(group_name), opt_view(status));
    let mut b = WhereBuilder::new(1);
    b.bind("cohort_id = ", "", i64_to_string(cohort_id));
    b.fixed("deleted_at IS NULL");
    if let Some(s) = search {
        b.bind_twice("(name LIKE ", " OR student_no LIKE ", ")", like_pattern(s.as_str()));
    }
    if let Some(g) = gender {
        b.bind("gender = ", "", g);
    }
    if let Some(g) = group_name {
        b.bind("group_name = ", "", g);
    }
    if let Some(st) = status {
        b.bind("status = ", "", st);
    }
    proof {
        assert(b.conds() =~= want);
    }
    b.finish()
}

/// The conditions that filter a cohort's homework: by cohort, not deleted, by
/// a search text in the title, and by subject.
pub open spec fn homework_conds(cohort_id: i64, search: Option<Seq<char>>, subject_id: Option<i64>) -> Seq<Cond> {
    let base = seq![
        Cond::One("h.cohort_id = "@, ""@, decimal_int(cohort_id as int)),
        Cond::Fixed("h.deleted_at IS NULL"@),
    ];
    let s1: Seq<Cond> = match search {
        Some(s) => seq![Cond::One("h.title LIKE "@, ""@, contains_pattern(s))],
        None => Seq::empty(),
    };
    let s2: Seq<Cond> = match subject_id {
        Some(id) => seq![Cond::One("h.subject_id = "@, ""@, decimal_int(id as int))],
        None => Seq::empty(),
    };
    base + s1 + s2
}

/// The conditions, parameters and next parameter number that list a cohort's
/// homework (parameters numbered from 1).
pub fn build_homework_where(cohort_id: i64, search: Option<String>, subject_id: Option<i64>) -> (r: (String, Vec<String>, i64))
    ensures
        ({
            let rd = render(homework_conds(cohort_id, opt_view(search), subject_id), 1);
            r.0@ == join(rd.0, " AND "@) && views(r.1@) == rd.1 && r.2 == rd.2
        }),
{
    let ghost want = homework_conds(cohort_id, opt_view(search), subject_id);
    let mut b = WhereBuilder::new(1);
    b.bind("h.cohort_id = ", "", i64_to_string(cohort_id));
    b.fixed("h.deleted_at IS NULL");
    if let Some(s) = search {
        b.bind("h.title LIKE ", "", like_pattern(s.as_str()));
    }
    if let Some(id) = subject_id {
        b.bind("h.subject_id = ", "", i64_to_string(id));
    }
    proof {
        assert(b.conds() =~= want);
    }
    b.finish()
}

/// The conditions that filter a cohort's attendance records: by cohort, by a
/// date range, by student and by status.
pub open spec fn attendance_conds(cohort_id: i64, start_date: Option<Seq<char>>, end_date: Option<Seq<char>>, student_id: Option<i64>, status: Option<Seq<char>>) -> Seq<Cond> {
    let base = seq![Cond::One("a.cohort_id = "@, ""@, decimal_int(cohort_id as int))];
    let s1: Seq<Cond> = match start_date {
        Some(d) => seq![Cond::One("a.attendance_date >= "@, ""@, d)],
        None => Seq::empty(),
    };
    let s2: Seq<Cond> = match end_date {
        Some(d) => seq![Cond::One("a.attendance_date <= "@, ""@, d)],
        None => Seq::empty(),
    };
    let s3: Seq<Cond> = match student_id {
        Some(id) => seq![Cond::One("a.student_id = "@, ""@, decimal_int(id as int))],
        None => Seq::empty(),
    };
    let s4: Seq<Cond> = match status {
        Some(st) => seq![Cond::One("a.status = "@, ""@, st)],
        None => Seq::empty(),
    };
    base + s1 + s2 + s3 + s4
}

/// The conditions, parameters and next parameter number that query a cohort's
/// attendance records (parameters numbered from 1).
pub fn build_attendance_where(
    cohort_id: i64,
    start_date: Option<String>,
    end_date: Option<String>,
    student_id: Option<i64>,
    status: Option<String>,
) -> (r: (String, Vec<String>, i64))
    ensures
        ({
            let rd = render(attendance_conds(cohort_id, opt_view(start_date), opt_view(end_date), student_id, opt_view(status)), 1);
            r.0@ == join(rd.0, " AND "@) && views(r.1@) == rd.1 && r.2 == rd.2
        }),
{
    let ghost want = attendance_conds(cohort_id, opt_view(start_date), opt_view(end_date), student_id, opt_view(status));
    let mut b = WhereBuilder::new(1);
    b.bind("a.cohort_id = ", "", i64_to_string(cohort_id));
    if let Some(d) = start_date {
        b.bind("a.attendance_date >= ", "", d);
    }
    if let Some(d) = end_date {
        b.bind("a.attendance_date <= ", "", d);
    }
    if let Some(id) = student_id {
        b.bind("a.student_id = ", "", i64_to_string(id));
    }
    if let Some(st) = status {
        b.bind("a.status = ", "", st);
    }
    proof {
        assert(b.conds() =~= want);
    }
    b.finish()
}

/// The conditions that filter a cohort's class-fee records: by cohort, not
/// deleted, by fee type, student and payment status.
pub open spec fn fee_conds(cohort_id: i64, fee_type: Option<Seq<char>>, student_id: Option<i64>, payment_status: Option<Seq<char>>) -> Seq<Cond> {
    let base = seq![
        Cond::One("f.cohort_id = "@, ""@, decimal_int(cohort_id as int)),
        Cond::Fixed("f.deleted_at IS NULL"@),
    ];
    let s1: Seq<Cond> = match fee_type {
        Some(t) => seq![Cond::One("f.fee_type = "@, ""@, t)],
        None => Seq::empty(),
    };
    let s2: Seq<Cond> = match student_id {
        Some(id) => seq![Cond::One("f.student_id = "@, ""@, decimal_int(id as int))],
        None => Seq::empty(),
    };
    let s3: Seq<Cond> = match payment_status {
        Some(p) => seq![Cond::One("f.payment_status = "@, ""@, p)],
        None => Seq::empty(),
    };
    base + s1 + s2 + s3
}

/// The conditions, parameters and next parameter number that list a cohort's
/// class-fee records (parameters numbered from 1).
pub fn build_fee_where(
    cohort_id: i64,
    fee_type: Option<String>,
    student_id: Option<i64>,
    payment_status: Option<String>,
) -> (r: (String, Vec<String>, i64))
    ensures
        ({
            let rd = render(fee_conds(cohort_id, opt_view(fee_type), student_id, opt_view(payment_status)), 1);
            r.0@ == join(rd.0, " AND "@) && views(r.1@) == rd.1 && r.2 == rd.2
        }),
{
    let ghost want = fee_conds(cohort_id, opt_view(fee_type), student_id, opt_view(payment_status));
    let mut b = WhereBuilder::new(1);
    b.bind("f.cohort_id = ", "", i64_to_string(cohort_id));
    b.fixed("f.deleted_at IS NULL");
    if let Some(t) = fee_type {
        b.bind("f.fee_type = ", "", t);
    }
    if let Some(id) = student_id {
        b.bind("f.student_id = ", "", i64_to_string(id));
    }
    if let Some(p) = payment_status {
        b.bind("f.payment_status = ", "", p);
    }
    proof {
        assert(b.conds() =~= want);
    }
    b.finish()
}

/// The conditions that filter cohorts: always true, then by a search text in
/// cohort or class name, and by status.
pub open spec fn cohort_conds(search: Option<Seq<char>>, status: Option<Seq<char>>) -> Seq<Cond> {
    let s1: Seq<Cond> = match search {
        Some(s) => seq![Cond::Two("(cohort_name LIKE "@, " OR class_name LIKE "@, ")"@, contains_pattern(s))],
        None => Seq::empty(),
    };
    let s2: Seq<Cond> = match status {
        Some(st) => seq![Cond::One("status = "@, ""@, st)],
        None => Seq::empty(),
    };
    seq![Cond::Fixed("1=1"@)] + s1 + s2
}

/// The query that lists cohorts, newest first, and the parameters it binds.
pub fn build_cohort_query(search: Option<String>, status: Option<String>) -> (r: (String, Vec<String>))
    ensures
        ({
            let rd = render(cohort_conds(opt_view(search), opt_view(status)), 1);
            r.0@ == "SELECT * FROM cohort WHERE "@ + join(rd.0, " AND "@) + " ORDER BY id DESC"@
                && views(r.1@) == rd.1
        }),
{
    let ghost want = cohort_conds(opt_view(search), opt_view(status));
    let mut b = WhereBuilder::new(1);
    b.fixed("1=1");
    if let Some(s) = search {
        b.bind_twice("(cohort_name LIKE ", " OR class_name LIKE ", ")", like_pattern(s.as_str()));
    }
    if let Some(st) = status {
        b.bind("status = ", "", st);
    }
    proof {
        assert(b.conds() =~= want);
    }
    let (w, params, _) = b.finish();
    let mut q = String::new();
    push_str(&mut q, "SELECT * FROM cohort WHERE ");
    push_str(&mut q, w.as_str());
    push_str(&mut q, " ORDER BY id DESC");
    proof {
        assert(q@ =~= "SELECT * FROM cohort WHERE "@ + w@ + " ORDER BY id DESC"@);
    }
    (q, params)
}

/// ` LIMIT ?n OFFSET ?m` with `m = n + 1`: the paging suffix of a list query.
pub fn paging_suffix(next: i64) -> (r: String)
    requires
        next < i64::MAX,
    ensures
        r@ == " LIMIT "@ + placeholder(next as int) + " OFFSET "@ + placeholder(next + 1),
{
    let mut r = String::new();
    push_str(&mut r, " LIMIT ");
    push_char(&mut r, '?');
    push_decimal_i64(&mut r, next);
    push_str(&mut r, " OFFSET ");
    push_char(&mut r, '?');
    push_decimal_i64(&mut r, next + 1);
    proof {
        assert(r@ =~= " LIMIT "@ + placeholder(next as int) + " OFFSET "@ + placeholder(next + 1));
    }
    r
}

/// A page of a list: the page number, its size, and how many rows precede it.
pub struct Page {
    pub page: i64,
    pub page_size: i64,
    pub offset: i64,
}

/// The page asked for, with page 1 and `default_size` rows when not given.
pub open spec fn page_of(page: Option<i64>, page_size: Option<i64>, default_size: i64) -> (int, int) {
    let p = match page {
        Some(v) => v as int,
        None => 1,
    };
    let s = match page_size {
        Some(v) => v as int,
        None => default_size as int,
    };
    (p, s)
}

/// Resolves the page of a list query: page 1 and `default_size` rows unless
/// given; the offset is `(page - 1) * page_size`.
pub fn resolve_page(page: Option<i64>, page_size: Option<i64>, default_size: i64) -> (r: Page)
    requires
        ({
            let (p, s) = page_of(page, page_size, default_size);
            i64::MIN <= p - 1 && i64::MIN <= (p - 1) * s <= i64::MAX
        }),
    ensures
        r.page == page_of(page, page_size, default_size).0,
        r.page_size == page_of(page, page_size, default_size).1,
        r.offset == (r.page - 1) * r.page_size,
{
    let p = match page {
        Some(v) => v,
        None => 1,
    };
    let s = match page_size {
        Some(v) => v,
        None => default_size,
    };
    let offset = (p - 1) * s;
    Page { page: p, page_size: s, offset }
}


/// Whether the rendered clauses hold `before ?j`, with parameter `j` (the
/// `j - start`-th of `params`) bound to `value`.
pub open spec fn binds_one(clauses: Seq<Seq<char>>, params: Seq<Seq<char>>, start: int, before: Seq<char>, value: Seq<char>) -> bool {
    exists|k: int, j: int|
        0 <= k < clauses.len() && start <= j < start + params.len() && #[trigger] clauses[k] == before
            + placeholder(j) && #[trigger] params[j - start] == value
}

/// Whether the rendered clauses hold `a ?j b ?j c`, with parameter `j` bound
/// to `value`.
pub open spec fn binds_two(clauses: Seq<Seq<char>>, params: Seq<Seq<char>>, start: int, a: Seq<char>, b: Seq<char>, c: Seq<char>, value: Seq<char>) -> bool {
    exists|k: int, j: int|
        0 <= k < clauses.len() && start <= j < start + params.len() && #[trigger] clauses[k] == a
            + placeholder(j) + b + placeholder(j) + c && #[trigger] params[j - start] == value
}

/// 1 where the filter is given, 0 where it is not.
pub open spec fn given(b: bool) -> int {
    if b {
        1
    } else {
        0
    }
}

proof fn lemma_render_extend(a: Seq<Cond>, b: Seq<Cond>, start: int)
    ensures
        render(a, start).0.len() <= render(a + b, start).0.len(),
        render(a, start).1.len() <= render(a + b, start).1.len(),
        forall|k: int| 0 <= k < render(a, start).0.len() ==> #[trigger] render(a + b, start).0[k] == render(a, start).0[k],
        forall|k: int| 0 <= k < render(a, start).1.len() ==> #[trigger] render(a + b, start).1[k] == render(a, start).1[k],
    decreases b.len(),
{
    if b.len() == 0 {
        assert(a + b =~= a);
    } else {
        lemma_render_extend(a, b.drop_last(), start);
        assert((a + b).drop_last() =~= a + b.drop_last());
        assert((a + b).last() == b.last());
    }
}

proof fn lemma_binds_one_at(pre: Seq<Cond>, before: Seq<char>, value: Seq<char>, rest: Seq<Cond>, start: int)
    ensures
        ({
            let rd = render(pre.push(Cond::One(before, ""@, value)) + rest, start);
            binds_one(rd.0, rd.1, start, before, value)
        }),
{
    let x = Cond::One(before, ""@, value);
    let (c, p, n) = render(pre, start);
    law_parameters_numbered_consecutively(pre, start);
    assert(pre.push(x).drop_last() =~= pre);
    let r1 = render(pre.push(x), start);
    reveal_strlit("");
    assert(r1.0 == c.push(before + placeholder(n) + ""@));
    assert(r1.1 == p.push(value));
    assert(before + placeholder(n) + ""@ =~= before + placeholder(n));
    lemma_render_extend(pre.push(x), rest, start);
    let rd = render(pre.push(x) + rest, start);
    assert(rd.0[c.len() as int] == before + placeholder(n));
    assert(rd.1[n - start] == value);
}

proof fn lemma_binds_two_at(pre: Seq<Cond>, a: Seq<char>, b: Seq<char>, c: Seq<char>, value: Seq<char>, rest: Seq<Cond>, start: int)
    ensures
        ({
            let rd = render(pre.push(Cond::Two(a, b, c, value)) + rest, start);
            binds_two(rd.0, rd.1, start, a, b, c, value)
        }),
{
    let x = Cond::Two(a, b, c, value);
    let (cl, p, n) = render(pre, start);
    law_parameters_numbered_consecutively(pre, start);
    assert(pre.push(x).drop_last() =~= pre);
    let r1 = render(pre.push(x), start);
    assert(r1.0 == cl.push(a + placeholder(n) + b + placeholder(n) + c));
    assert(r1.1 == p.push(value));
    lemma_render_extend(pre.push(x), rest, start);
    let rd = render(pre.push(x) + rest, start);
    assert(rd.0[cl.len() as int] == a + placeholder(n) + b + placeholder(n) + c);
    assert(rd.1[n - start] == value);
}

proof fn lemma_fixed_at(pre: Seq<Cond>, t: Seq<char>, rest: Seq<Cond>, start: int)
    ensures
        render(pre.push(Cond::Fixed(t)) + rest, start).0.contains(t),
{
    let x = Cond::Fixed(t);
    let (cl, p, n) = render(pre, start);
    law_parameters_numbered_consecutively(pre, start);
    assert(pre.push(x).drop_last() =~= pre);
    assert(render(pre.push(x), start).0 == cl.push(t));
    lemma_render_extend(pre.push(x), rest, start);
    assert(render(pre.push(x) + rest, start).0[cl.len() as int] == t);
}

/// The student list keeps to its cohort and leaves out deleted students, and
/// each filter given adds exactly one condition binding what was given: the
/// search as `%text%` on name or student number, the gender, the group and
/// the status, each compared for equality.
#[verifier::rlimit(80)]
pub proof fn law_student_filters(cohort_id: i64, search: Option<Seq<char>>, gender: Option<Seq<char>>, group: Option<Seq<char>>, status: Option<Seq<char>>)
    ensures
        render(student_conds(cohort_id, search, gender, group, status), 1).0.len() == 2 + given(search is Some)
            + given(gender is Some) + given(group is Some) + given(status is Some),
        binds_one(
            render(student_conds(cohort_id, search, gender, group, status), 1).0,
            render(student_conds(cohort_id, search, gender, group, status), 1).1,
            1,
            "cohort_id = "@,
            decimal_int(cohort_id as int),
        ),
        render(student_conds(cohort_id, search, gender, group, status), 1).0.contains("deleted_at IS NULL"@),
        search matches Some(s) ==> binds_two(
            render(student_conds(cohort_id, search, gender, group, status), 1).0,
            render(student_conds(cohort_id, search, gender, group, status), 1).1,
            1,
            "(name LIKE "@,
            " OR student_no LIKE "@,
            ")"@,
            seq!['%'] + s + seq!['%'],
        ),
        gender matches Some(g) ==> binds_one(
            render(student_conds(cohort_id, search, gender, group, status), 1).0,
            render(student_conds(cohort_id, search, gender, group, status), 1).1,
            1,
            "gender = "@,
            g,
        ),
        group matches Some(g) ==> binds_one(
            render(student_conds(cohort_id, search, gender, group, status), 1).0,
            render(student_conds(cohort_id, search, gender, group, status), 1).1,
            1,
            "group_name = "@,
            g,
        ),
        status matches Some(st) ==> binds_one(
            render(student_conds(cohort_id, search, gender, group, status), 1).0,
            render(student_conds(cohort_id, search, gender, group, status), 1).1,
            1,
            "status = "@,
            st,
        ),
{
    let all = student_conds(cohort_id, search, gender, group, status);
    let c0 = Cond::One("cohort_id = "@, ""@, decimal_int(cohort_id as int));
    let c1 = Cond::Fixed("deleted_at IS NULL"@);
    let s1: Seq<Cond> = match search {
        Some(s) => seq![Cond::Two("(name LIKE "@, " OR student_no LIKE "@, ")"@, contains_pattern(s))],
        None => Seq::empty(),
    };
    let s2: Seq<Cond> = match gender {
        Some(g) => seq![Cond::One("gender = "@, ""@, g)],
        None => Seq::empty(),
    };
    let s3: Seq<Cond> = match group {
        Some(g) => seq![Cond::One("group_name = "@, ""@, g)],
        None => Seq::empty(),
    };
    let s4: Seq<Cond> = match status {
        Some(st) => seq![Cond::One("status = "@, ""@, st)],
        None => Seq::empty(),
    };
    let base = seq![c0, c1];
    assert(all == base + s1 + s2 + s3 + s4);
    law_parameters_numbered_consecutively(all, 1);
    assert(Seq::<Cond>::empty().push(c0) + (seq![c1] + s1 + s2 + s3 + s4) =~= all);
    lemma_binds_one_at(Seq::empty(), "cohort_id = "@, decimal_int(cohort_id as int), seq![c1] + s1 + s2 + s3 + s4, 1);
    assert(seq![c0].push(c1) + (s1 + s2 + s3 + s4) =~= all);
    lemma_fixed_at(seq![c0], "deleted_at IS NULL"@, s1 + s2 + s3 + s4, 1);
    if search is Some {
        let s = search.unwrap();
        assert(base.push(s1[0]) + (s2 + s3 + s4) =~= all);
        lemma_binds_two_at(base, "(name LIKE "@, " OR student_no LIKE "@, ")"@, contains_pattern(s), s2 + s3 + s4, 1);
    }
    if gender is Some {
        assert((base + s1).push(s2[0]) + (s3 + s4) =~= all);
        lemma_binds_one_at(base + s1, "gender = "@, gender.unwrap(), s3 + s4, 1);
    }
    if group is Some {
        assert((base + s1 + s2).push(s3[0]) + s4 =~= all);
        lemma_binds_one_at(base + s1 + s2, "group_name = "@, group.unwrap(), s4, 1);
    }
    if status is Some {
        assert((base + s1 + s2 + s3).push(s4[0]) + Seq::<Cond>::empty() =~= all);
        lemma_binds_one_at(base + s1 + s2 + s3, "status = "@, status.unwrap(), Seq::empty(), 1);
    }
}

/// The homework list keeps to its cohort and leaves out deleted homework, and
/// each filter given adds exactly one condition: the search as `%text%` on the
/// title, and the subject.
#[verifier::rlimit(60)]
pub proof fn law_homework_filters(cohort_id: i64, search: Option<Seq<char>>, subject_id: Option<i64>)
    ensures
        render(homework_conds(cohort_id, search, subject_id), 1).0.len() == 2 + given(search is Some) + given(subject_id is Some),
        binds_one(render(homework_conds(cohort_id, search, subject_id), 1).0, render(homework_conds(cohort_id, search, subject_id), 1).1, 1, "h.cohort_id = "@, decimal_int(cohort_id as int)),
        render(homework_conds(cohort_id, search, subject_id), 1).0.contains("h.deleted_at IS NULL"@),
        search matches Some(s) ==> binds_one(render(homework_conds(cohort_id, search, subject_id), 1).0, render(homework_conds(cohort_id, search, subject_id), 1).1, 1, "h.title LIKE "@, seq!['%'] + s + seq!['%']),
        subject_id matches Some(id) ==> binds_one(render(homework_conds(cohort_id, search, subject_id), 1).0, render(homework_conds(cohort_id, search, subject_id), 1).1, 1, "h.subject_id = "@, decimal_int(id as int)),
{
    let all = homework_conds(cohort_id, search, subject_id);
    let c0 = Cond::One("h.cohort_id = "@, ""@, decimal_int(cohort_id as int));
    let c1 = Cond::Fixed("h.deleted_at IS NULL"@);
    let s1: Seq<Cond> = match search {
        Some(s) => seq![Cond::One("h.title LIKE "@, ""@, contains_pattern(s))],
        None => Seq::empty(),
    };
    let s2: Seq<Cond> = match subject_id {
        Some(id) => seq![Cond::One("h.subject_id = "@, ""@, decimal_int(id as int))],
        None => Seq::empty(),
    };
    let base = seq![c0, c1];
    assert(all == base + s1 + s2);
    law_parameters_numbered_consecutively(all, 1);
    assert(Seq::<Cond>::empty().push(c0) + (seq![c1] + s1 + s2) =~= all);
    lemma_binds_one_at(Seq::<Cond>::empty(), "h.cohort_id = "@, decimal_int(cohort_id as int), seq![c1] + s1 + s2, 1);
    assert(seq![c0].push(c1) + (s1 + s2) =~= all);
    lemma_fixed_at(seq![c0], "h.deleted_at IS NULL"@, s1 + s2, 1);
    if search is Some {
        let s = search.unwrap();
        assert(base.push(s1[0]) + (s2) =~= all);
        lemma_binds_one_at(base, "h.title LIKE "@, seq!['%'] + s + seq!['%'], s2, 1);
    }
    if subject_id is Some {
        let id = subject_id.unwrap();
        assert((base + s1).push(s2[0]) + (Seq::<Cond>::empty()) =~= all);
        lemma_binds_one_at((base + s1), "h.subject_id = "@, decimal_int(id as int), Seq::<Cond>::empty(), 1);
    }
}

/// The attendance history keeps to its cohort, and each filter given adds
/// exactly one condition: the start date as a lower bound (`>=`) and the end
/// date as an upper bound (`<=`) on the attendance date, the student and the
/// status.
#[verifier::rlimit(80)]
pub proof fn law_attendance_filters(cohort_id: i64, start_date: Option<Seq<char>>, end_date: Option<Seq<char>>, student_id: Option<i64>, status: Option<Seq<char>>)
    ensures
        render(attendance_conds(cohort_id, start_date, end_date, student_id, status), 1).0.len() == 1 + given(start_date is Some) + given(end_date is Some) + given(student_id is Some) + given(status is Some),
        binds_one(render(attendance_conds(cohort_id, start_date, end_date, student_id, status), 1).0, render(attendance_conds(cohort_id, start_date, end_date, student_id, status), 1).1, 1, "a.cohort_id = "@, decimal_int(cohort_id as int)),
        start_date matches Some(d) ==> binds_one(render(attendance_conds(cohort_id, start_date, end_date, student_id, status), 1).0, render(attendance_conds(cohort_id, start_date, end_date, student_id, status), 1).1, 1, "a.attendance_date >= "@, d),
        end_date matches Some(e) ==> binds_one(render(attendance_conds(cohort_id, start_date, end_date, student_id, status), 1).0, render(attendance_conds(cohort_id, start_date, end_date, student_id, status), 1).1, 1, "a.attendance_date <= "@, e),
        student_id matches Some(id) ==> binds_one(render(attendance_conds(cohort_id, start_date, end_date, student_id, status), 1).0, render(attendance_conds(cohort_id, start_date, end_date, student_id, status), 1).1, 1, "a.student_id = "@, decimal_int(id as int)),
        status matches Some(st) ==> binds_one(render(attendance_conds(cohort_id, start_date, end_date, student_id, status), 1).0, render(attendance_conds(cohort_id, start_date, end_date, student_id, status), 1).1, 1, "a.status = "@, st),
{
    let all = attendance_conds(cohort_id, start_date, end_date, student_id, status);
    let c0 = Cond::One("a.cohort_id = "@, ""@, decimal_int(cohort_id as int));
    let s1: Seq<Cond> = match start_date {
        Some(d) => seq![Cond::One("a.attendance_date >= "@, ""@, d)],
        None => Seq::empty(),
    };
    let s2: Seq<Cond> = match end_date {
        Some(e) => seq![Cond::One("a.attendance_date <= "@, ""@, e)],
        None => Seq::empty(),
    };
    let s3: Seq<Cond> = match student_id {
        Some(id) => seq![Cond::One("a.student_id = "@, ""@, decimal_int(id as int))],
        None => Seq::empty(),
    };
    let s4: Seq<Cond> = match status {
        Some(st) => seq![Cond::One("a.status = "@, ""@, st)],
        None => Seq::empty(),
    };
    let base = seq![c0];
    assert(all == base + s1 + s2 + s3 + s4);
    law_parameters_numbered_consecutively(all, 1);
    assert(Seq::<Cond>::empty().push(c0) + (s1 + s2 + s3 + s4) =~= all);
    lemma_binds_one_at(Seq::<Cond>::empty(), "a.cohort_id = "@, decimal_int(cohort_id as int), s1 + s2 + s3 + s4, 1);
    if start_date is Some {
        let d = start_date.unwrap();
        assert(base.push(s1[0]) + (s2 + s3 + s4) =~= all);
        lemma_binds_one_at(base, "a.attendance_date >= "@, d, s2 + s3 + s4, 1);
    }
    if end_date is Some {
        let e = end_date.unwrap();
        assert((base + s1).push(s2[0]) + (s3 + s4) =~= all);
        lemma_binds_one_at((base + s1), "a.attendance_date <= "@, e, s3 + s4, 1);
    }
    if student_id is Some {
        let id = student_id.unwrap();
        assert((base + s1 + s2).push(s3[0]) + (s4) =~= all);
        lemma_binds_one_at((base + s1 + s2), "a.student_id = "@, decimal_int(id as int), s4, 1);
    }
    if status is Some {
        let st = status.unwrap();
        assert((base + s1 + s2 + s3).push(s4[0]) + (Seq::<Cond>::empty()) =~= all);
        lemma_binds_one_at((base + s1 + s2 + s3), "a.status = "@, st, Seq::<Cond>::empty(), 1);
    }
}

/// The class-fee list keeps to its cohort and leaves out deleted entries, and
/// each filter given adds exactly one equality condition: the fee type, the
/// student and the payment status.
#[verifier::rlimit(80)]
pub proof fn law_fee_filters(cohort_id: i64, fee_type: Option<Seq<char>>, student_id: Option<i64>, payment_status: Option<Seq<char>>)
    ensures
        render(fee_conds(cohort_id, fee_type, student_id, payment_status), 1).0.len() == 2 + given(fee_type is Some) + given(student_id is Some) + given(payment_status is Some),
        binds_one(render(fee_conds(cohort_id, fee_type, student_id, payment_status), 1).0, render(fee_conds(cohort_id, fee_type, student_id, payment_status), 1).1, 1, "f.cohort_id = "@, decimal_int(cohort_id as int)),
        render(fee_conds(cohort_id, fee_type, student_id, payment_status), 1).0.contains("f.deleted_at IS NULL"@),
        fee_type matches Some(t) ==> binds_one(render(fee_conds(cohort_id, fee_type, student_id, payment_status), 1).0, render(fee_conds(cohort_id, fee_type, student_id, payment_status), 1).1, 1, "f.fee_type = "@, t),
        student_id matches Some(id) ==> binds_one(render(fee_conds(cohort_id, fee_type, student_id, payment_status), 1).0, render(fee_conds(cohort_id, fee_type, student_id, payment_status), 1).1, 1, "f.student_id = "@, decimal_int(id as int)),
        payment_status matches Some(ps) ==> binds_one(render(fee_conds(cohort_id, fee_type, student_id, payment_status), 1).0, render(fee_conds(cohort_id, fee_type, student_id, payment_status), 1).1, 1, "f.payment_status = "@, ps),
{
    let all = fee_conds(cohort_id, fee_type, student_id, payment_status);
    let c0 = Cond::One("f.cohort_id = "@, ""@, decimal_int(cohort_id as int));
    let c1 = Cond::Fixed("f.deleted_at IS NULL"@);
    let s1: Seq<Cond> = match fee_type {
        Some(t) => seq![Cond::One("f.fee_type = "@, ""@, t)],
        None => Seq::empty(),
    };
    let s2: Seq<Cond> = match student_id {
        Some(id) => seq![Cond::One("f.student_id = "@, ""@, decimal_int(id as int))],
        None => Seq::empty(),
    };
    let s3: Seq<Cond> = match payment_status {
        Some(ps) => seq![Cond::One("f.payment_status = "@, ""@, ps)],
        None => Seq::empty(),
    };
    let base = seq![c0, c1];
    assert(all == base + s1 + s2 + s3);
    law_parameters_numbered_consecutively(all, 1);
    assert(Seq::<Cond>::empty().push(c0) + (seq![c1] + s1 + s2 + s3) =~= all);
    lemma_binds_one_at(Seq::<Cond>::empty(), "f.cohort_id = "@, decimal_int(cohort_id as int), seq![c1] + s1 + s2 + s3, 1);
    assert(seq![c0].push(c1) + (s1 + s2 + s3) =~= all);
    lemma_fixed_at(seq![c0], "f.deleted_at IS NULL"@, s1 + s2 + s3, 1);
    if fee_type is Some {
        let t = fee_type.unwrap();
        assert(base.push(s1[0]) + (s2 + s3) =~= all);
        lemma_binds_one_at(base, "f.fee_type = "@, t, s2 + s3, 1);
    }
    if student_id is Some {
        let id = student_id.unwrap();
        assert((base + s1).push(s2[0]) + (s3) =~= all);
        lemma_binds_one_at((base + s1), "f.student_id = "@, decimal_int(id as int), s3, 1);
    }
    if payment_status is Some {
        let ps = payment_status.unwrap();
        assert((base + s1 + s2).push(s3[0]) + (Seq::<Cond>::empty()) =~= all);
        lemma_binds_one_at((base + s1 + s2), "f.payment_status = "@, ps, Seq::<Cond>::empty(), 1);
    }
}

/// The cohort list adds exactly one condition per filter given: the search as
/// `%text%` on cohort or class name, and the status.
#[verifier::rlimit(60)]
pub proof fn law_cohort_filters(search: Option<Seq<char>>, status: Option<Seq<char>>)
    ensures
        render(cohort_conds(search, status), 1).0.len() == 1 + given(search is Some) + given(status is Some),
        render(cohort_conds(search, status), 1).0.contains("1=1"@),
        search matches Some(s) ==> binds_two(render(cohort_conds(search, status), 1).0, render(cohort_conds(search, status), 1).1, 1, "(cohort_name LIKE "@, " OR class_name LIKE "@, ")"@, seq!['%'] + s + seq!['%']),
        status matches Some(st) ==> binds_one(render(cohort_conds(search, status), 1).0, render(cohort_conds(search, status), 1).1, 1, "status = "@, st),
{
    let all = cohort_conds(search, status);
    let c0 = Cond::Fixed("1=1"@);
    let s1: Seq<Cond> = match search {
        Some(s) => seq![Cond::Two("(cohort_name LIKE "@, " OR class_name LIKE "@, ")"@, contains_pattern(s))],
        None => Seq::empty(),
    };
    let s2: Seq<Cond> = match status {
        Some(st) => seq![Cond::One("status = "@, ""@, st)],
        None => Seq::empty(),
    };
    let base = seq![c0];
    assert(all == base + s1 + s2);
    law_parameters_numbered_consecutively(all, 1);
    assert(Seq::<Cond>::empty().push(c0) + (s1 + s2) =~= all);
    lemma_fixed_at(Seq::<Cond>::empty(), "1=1"@, s1 + s2, 1);
    if search is Some {
        let s = search.unwrap();
        assert(base.push(s1[0]) + (s2) =~= all);
        assert(contains_pattern(s) == seq!['%'] + s + seq!['%']);
        lemma_binds_two_at(base, "(cohort_name LIKE "@, " OR class_name LIKE "@, ")"@, contains_pattern(s), s2, 1);
    }
    if status is Some {
        let st = status.unwrap();
        assert((base + s1).push(s2[0]) + (Seq::<Cond>::empty()) =~= all);
        lemma_binds_one_at((base + s1), "status = "@, st, Seq::<Cond>::empty(), 1);
    }
}

/// The affair lists (notices, duties, behaviour records) keep to their cohort,
/// and each filter given adds exactly one condition binding what was given:
/// the search as `%text%` on title or content, the student, and the record
/// type; the parameters follow the conditions one for one from `start`.
#[verifier::rlimit(40)]
pub proof fn law_affair_filters(alias: Seq<char>, start: int, cohort_id: i64, search: Option<Seq<char>>, student_id: Option<i64>, kind: Option<Seq<char>>)
    ensures
        affair_clauses(alias, start, search is Some, student_id is Some, kind is Some).len() == 1 + given(search is Some)
            + given(student_id is Some) + given(kind is Some),
        affair_params(cohort_id, search, student_id, kind).len() == affair_clauses(alias, start, search is Some, student_id is Some, kind is Some).len(),
        binds_one(
            affair_clauses(alias, start, search is Some, student_id is Some, kind is Some),
            affair_params(cohort_id, search, student_id, kind),
            start,
            alias + ".cohort_id = "@,
            decimal_int(cohort_id as int),
        ),
        search matches Some(s) ==> binds_two(
            affair_clauses(alias, start, search is Some, student_id is Some, kind is Some),
            affair_params(cohort_id, search, student_id, kind),
            start,
            "("@ + alias + ".title LIKE "@,
            " OR "@ + alias + ".content LIKE "@,
            ")"@,
            seq!['%'] + s + seq!['%'],
        ),
        student_id matches Some(id) ==> binds_one(
            affair_clauses(alias, start, search is Some, student_id is Some, kind is Some),
            affair_params(cohort_id, search, student_id, kind),
            start,
            alias + ".student_id = "@,
            decimal_int(id as int),
        ),
        kind matches Some(k) ==> binds_one(
            affair_clauses(alias, start, search is Some, student_id is Some, kind is Some),
            affair_params(cohort_id, search, student_id, kind),
            start,
            alias + ".type = "@,
            k,
        ),
{
    let c = affair_clauses(alias, start, search is Some, student_id is Some, kind is Some);
    let p = affair_params(cohort_id, search, student_id, kind);
    assert(c[0] == alias + ".cohort_id = "@ + placeholder(start));
    assert(p[start - start] == decimal_int(cohort_id as int));
    if search is Some {
        let s = search.unwrap();
        assert(c[1] =~= ("("@ + alias + ".title LIKE "@) + placeholder(start + 1) + (" OR "@ + alias
            + ".content LIKE "@) + placeholder(start + 1) + ")"@);
        assert(p[(start + 1) - start] == seq!['%'] + s + seq!['%']);
    }
    if student_id is Some {
        let k = 1 + given(search is Some);
        assert(c[k] == alias + ".student_id = "@ + placeholder(start + k));
        assert(p[(start + k) - start] == decimal_int(student_id.unwrap() as int));
    }
    if kind is Some {
        let k = 1 + given(search is Some) + given(student_id is Some);
        assert(c[k] == alias + ".type = "@ + placeholder(start + k));
        assert(p[(start + k) - start] == kind.unwrap());
    }
}

/// A list query shows page 1 when no page is asked for and `default_size` rows
/// when no page size is; what is asked for is taken as it is, and the pages
/// do not overlap: page `p` skips the `(p - 1) * size` rows of the pages
/// before it.
pub proof fn law_paging(page: Option<i64>, page_size: Option<i64>, default_size: i64)
    ensures
        page is None ==> page_of(page, page_size, default_size).0 == 1,
        page matches Some(p) ==> page_of(page, page_size, default_size).0 == p,
        page_size is None ==> page_of(page, page_size, default_size).1 == default_size,
        page_size matches Some(n) ==> page_of(page, page_size, default_size).1 == n,
{
}

} // verus!
