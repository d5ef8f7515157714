use vstd::prelude::*;

verus! {

/// A table of the application's database that backups and restores carry.
#[derive(Clone, Copy, Debug, PartialEq, Eq, Structural)]
pub enum Table {
    Cohort,
    Student,
    Subject,
    Homework,
    HomeworkRecord,
    Attendance,
    Exam,
    Score,
    Notice,
    Duty,
    BehaviorRecord,
    SystemConfig,
    ExamSubjectConfig,
    ClassFee,
}

/// The table's name in the database schema.
pub open spec fn table_name(t: Table) -> Seq<char> {
    match t {
        Table::Cohort => "cohort"@,
        Table::Student => "student"@,
        Table::Subject => "subject"@,
        Table::Homework => "homework"@,
        Table::HomeworkRecord => "homework_record"@,
        Table::Attendance => "attendance"@,
        Table::Exam => "exam"@,
        Table::Score => "score"@,
        Table::Notice => "notice"@,
        Table::Duty => "duty"@,
        Table::BehaviorRecord => "behavior_record"@,
        Table::SystemConfig => "system_config"@,
        Table::ExamSubjectConfig => "exam_subject_config"@,
        Table::ClassFee => "class_fee"@,
    }
}

/// The foreign keys of the schema: rows of `child` refer to rows of `parent`.
pub open spec fn references(child: Table, parent: Table) -> bool {
    match child {
        Table::Student => parent == Table::Cohort,
        Table::Homework => parent == Table::Cohort || parent == Table::Subject,
        Table::HomeworkRecord => parent == Table::Homework || parent == Table::Student,
        Table::Attendance => parent == Table::Cohort || parent == Table::Student,
        Table::Exam => parent == Table::Cohort,
        Table::Score => parent == Table::Exam || parent == Table::Subject || parent
            == Table::Student,
        Table::Notice => parent == Table::Cohort,
        Table::Duty => parent == Table::Cohort || parent == Table::Student,
        Table::BehaviorRecord => parent == Table::Cohort || parent == Table::Student,
        Table::ExamSubjectConfig => parent == Table::Exam || parent == Table::Subject,
        Table::ClassFee => parent == Table::Cohort || parent == Table::Student,
        _ => false,
    }
}

impl Table {
    /// The table's name in the database schema.
    pub fn name(&self) -> (r: &'static str)
        ensures
            r@ == table_name(*self),
    {
        match self {
            Table::Cohort => "cohort",
            Table::Student => "student",
            Table::Subject => "subject",
            Table::Homework => "homework",
            Table::HomeworkRecord => "homework_record",
            Table::Attendance => "attendance",
            Table::Exam => "exam",
            Table::Score => "score",
            Table::Notice => "notice",
            Table::Duty => "duty",
            Table::BehaviorRecord => "behavior_record",
            Table::SystemConfig => "system_config",
            Table::ExamSubjectConfig => "exam_subject_config",
            Table::ClassFee => "class_fee",
        }
    }
}

/// The order in which a restore empties the tables: children before parents.
pub open spec fn delete_order() -> Seq<Table> {
    seq![
        Table::HomeworkRecord,
        Table::Score,
        Table::ExamSubjectConfig,
        Table::Attendance,
        Table::Homework,
        Table::Exam,
        Table::Notice,
        Table::Duty,
        Table::BehaviorRecord,
        Table::ClassFee,
        Table::Student,
        Table::Subject,
        Table::SystemConfig,
        Table::Cohort,
    ]
}

/// The order in which a restore fills the tables: the order in which it empties
/// them, reversed, so that parents come before children.
pub open spec fn insert_order() -> Seq<Table> {
    delete_order().reverse()
}

/// The tables that a backup database must hold to be accepted.
pub open spec fn required_tables() -> Seq<Table> {
    seq![
        Table::Cohort,
        Table::Student,
        Table::Subject,
        Table::Homework,
        Table::HomeworkRecord,
        Table::Attendance,
        Table::Exam,
        Table::ExamSubjectConfig,
        Table::Score,
        Table::Notice,
        Table::Duty,
        Table::BehaviorRecord,
        Table::ClassFee,
        Table::SystemConfig,
    ]
}

/// The order in which a restore empties the tables.
pub fn get_delete_order() -> (r: Vec<Table>)
    ensures
        r@ == delete_order(),
{
    let r = vec![
        Table::HomeworkRecord,
        Table::Score,
        Table::ExamSubjectConfig,
        Table::Attendance,
        Table::Homework,
        Table::Exam,
        Table::Notice,
        Table::Duty,
        Table::BehaviorRecord,
        Table::ClassFee,
        Table::Student,
        Table::Subject,
        Table::SystemConfig,
        Table::Cohort,
    ];
    proof {
        assert(r@ =~= delete_order());
    }
    r
}

/// The order in which a restore fills the tables: the delete order reversed.
pub fn get_insert_order() -> (r: Vec<Table>)
    ensures
        r@ == insert_order(),
        r@ == delete_order().reverse(),
{
    let r = vec![
        Table::Cohort,
        Table::SystemConfig,
        Table::Subject,
        Table::Student,
        Table::ClassFee,
        Table::BehaviorRecord,
        Table::Duty,
        Table::Notice,
        Table::Exam,
        Table::Homework,
        Table::Attendance,
        Table::ExamSubjectConfig,
        Table::Score,
        Table::HomeworkRecord,
    ];
    proof {
        assert(r@ =~= delete_order().reverse());
    }
    r
}

/// The tables that a backup database must hold.
pub fn get_required_tables() -> (r: Vec<Table>)
    ensures
        r@ == required_tables(),
{
    let r = vec![
        Table::Cohort,
        Table::Student,
        Table::Subject,
        Table::Homework,
        Table::HomeworkRecord,
        Table::Attendance,
        Table::Exam,
        Table::ExamSubjectConfig,
        Table::Score,
        Table::Notice,
        Table::Duty,
        Table::BehaviorRecord,
        Table::ClassFee,
        Table::SystemConfig,
    ];
    proof {
        assert(r@ =~= required_tables());
    }
    r
}

/// Each table occurs exactly once in the sequence, and every table occurs.
pub open spec fn is_table_permutation(s: Seq<Table>) -> bool {
    &&& s.len() == 14
    &&& forall|t: Table| #[trigger] s.contains(t)
    &&& forall|i: int, j: int| 0 <= i < j < s.len() ==> s[i] != s[j]
}

proof fn lemma_all_tables_in(s: Seq<Table>)
    requires
        s.len() == 14,
        s.contains(Table::Cohort),
        s.contains(Table::Student),
        s.contains(Table::Subject),
        s.contains(Table::Homework),
        s.contains(Table::HomeworkRecord),
        s.contains(Table::Attendance),
        s.contains(Table::Exam),
        s.contains(Table::Score),
        s.contains(Table::Notice),
        s.contains(Table::Duty),
        s.contains(Table::BehaviorRecord),
        s.contains(Table::SystemConfig),
        s.contains(Table::ExamSubjectConfig),
        s.contains(Table::ClassFee),
    ensures
        forall|t: Table| #[trigger] s.contains(t),
{
    assert forall|t: Table| #[trigger] s.contains(t) by {
        match t {
            Table::Cohort => {},
            Table::Student => {},
            Table::Subject => {},
            Table::Homework => {},
            Table::HomeworkRecord => {},
            Table::Attendance => {},
            Table::Exam => {},
            Table::Score => {},
            Table::Notice => {},
            Table::Duty => {},
            Table::BehaviorRecord => {},
            Table::SystemConfig => {},
            Table::ExamSubjectConfig => {},
            Table::ClassFee => {},
        }
    }
}

/// A restore empties every table of the schema exactly once, and never a parent
/// table before a table whose rows refer to it.
pub proof fn law_delete_order_children_first()
    ensures
        is_table_permutation(delete_order()),
        forall|i: int, j: int|
            0 <= i < 14 && 0 <= j < 14 && references(
                #[trigger] delete_order()[i],
                #[trigger] delete_order()[j],
            ) ==> i < j,
{
    let s = delete_order();
    assert(s[0] == Table::HomeworkRecord && s[1] == Table::Score && s[2] == Table::ExamSubjectConfig && s[3] == Table::Attendance && s[4] == Table::Homework && s[5] == Table::Exam && s[6] == Table::Notice && s[7] == Table::Duty && s[8] == Table::BehaviorRecord && s[9] == Table::ClassFee && s[10] == Table::Student && s[11] == Table::Subject && s[12] == Table::SystemConfig && s[13] == Table::Cohort);
    lemma_all_tables_in(s);
}

/// A restore fills the tables in the reverse of the order in which it empties
/// them: every table exactly once, and never a table before the tables that its
/// rows refer to.
pub proof fn law_insert_order_parents_first()
    ensures
        insert_order() == delete_order().reverse(),
        is_table_permutation(insert_order()),
        forall|i: int, j: int|
            0 <= i < 14 && 0 <= j < 14 && references(
                #[trigger] insert_order()[i],
                #[trigger] insert_order()[j],
            ) ==> j < i,
{
    let s = insert_order();
    assert(s =~= seq![Table::Cohort, Table::SystemConfig, Table::Subject, Table::Student, Table::ClassFee, Table::BehaviorRecord, Table::Duty, Table::Notice, Table::Exam, Table::Homework, Table::Attendance, Table::ExamSubjectConfig, Table::Score, Table::HomeworkRecord]);
    assert(s[0] == Table::Cohort && s[1] == Table::SystemConfig && s[2] == Table::Subject && s[3] == Table::Student && s[4] == Table::ClassFee && s[5] == Table::BehaviorRecord && s[6] == Table::Duty && s[7] == Table::Notice && s[8] == Table::Exam && s[9] == Table::Homework && s[10] == Table::Attendance && s[11] == Table::ExamSubjectConfig && s[12] == Table::Score && s[13] == Table::HomeworkRecord);
    lemma_all_tables_in(s);
}

/// The backup check requires exactly the tables that a restore empties and fills.
pub proof fn law_required_tables_match_restore()
    ensures
        is_table_permutation(required_tables()),
        forall|t: Table|
            #[trigger] required_tables().contains(t) <==> delete_order().contains(t)
                && insert_order().contains(t),
{
    let s = required_tables();
    assert(s[0] == Table::Cohort && s[1] == Table::Student && s[2] == Table::Subject && s[3] == Table::Homework && s[4] == Table::HomeworkRecord && s[5] == Table::Attendance && s[6] == Table::Exam && s[7] == Table::ExamSubjectConfig && s[8] == Table::Score && s[9] == Table::Notice && s[10] == Table::Duty && s[11] == Table::BehaviorRecord && s[12] == Table::ClassFee && s[13] == Table::SystemConfig);
    lemma_all_tables_in(s);
    law_delete_order_children_first();
    law_insert_order_parents_first();
}

} // verus!
