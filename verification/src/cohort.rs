use vstd::prelude::*;

use crate::text::{str_eq, to_owned_string};

verus! {

/// A cohort (届次): one class over its school years.
#[derive(Debug)]
pub struct Cohort {
    pub id: i64,
    pub cohort_name: String,
    pub class_name: String,
    pub grade_name: Option<String>,
    pub school_name: Option<String>,
    pub head_teacher: Option<String>,
    pub admission_year: Option<i64>,
    pub graduation_year: Option<i64>,
    pub semester: Option<String>,
    pub status: String,
    pub is_current: bool,
    pub archive_time: Option<String>,
    pub remark: Option<String>,
    pub created_at: String,
    pub updated_at: String,
}

/// Status of a cohort in use.
pub open spec fn active_status() -> Seq<char> {
    "使用中"@
}

/// Status of an archived (read-only) cohort.
pub open spec fn archived_status() -> Seq<char> {
    "已归档"@
}

pub open spec fn is_archived(c: Cohort) -> bool {
    c.status@ == archived_status()
}

pub open spec fn is_active(c: Cohort) -> bool {
    c.status@ == active_status()
}

/// A cohort that may be the current one: marked current and in use.
pub open spec fn is_current_candidate(c: Cohort) -> bool {
    c.is_current && is_active(c)
}

/// Why a cohort operation is refused.
#[derive(Debug, PartialEq, Eq, Structural)]
pub enum CohortError {
    /// The cohort to be written to does not exist.
    Missing,
    /// The cohort looked up by id does not exist; the storage layer words the
    /// message after its own lookup, and `message` gives the generic one.
    NotFound,
    /// The cohort is archived, so its data cannot change.
    ReadOnly,
    /// The cohort is archived, so it cannot be edited.
    NotEditable,
    /// The cohort is archived already.
    AlreadyArchived,
    /// The cohort is not archived.
    NotArchived,
    /// The cohort is archived, so it cannot become the current one.
    CannotBeCurrent,
}

/// The message shown for a refused cohort operation.
pub open spec fn cohort_error_text(e: CohortError) -> Seq<char> {
    match e {
        CohortError::Missing => "届次不存在"@,
        CohortError::NotFound => "获取届次失败"@,
        CohortError::ReadOnly => "已归档届次不允许修改数据"@,
        CohortError::NotEditable => "已归档届次不可编辑"@,
        CohortError::AlreadyArchived => "届次已归档"@,
        CohortError::NotArchived => "届次未归档"@,
        CohortError::CannotBeCurrent => "已归档届次不能设为当前"@,
    }
}

impl CohortError {
    /// The message shown to the user.
    pub fn message(&self) -> (r: String)
        ensures
            r@ == cohort_error_text(*self),
    {
        let s = match self {
            CohortError::Missing => "届次不存在",
            CohortError::NotFound => "获取届次失败",
            CohortError::ReadOnly => "已归档届次不允许修改数据",
            CohortError::NotEditable => "已归档届次不可编辑",
            CohortError::AlreadyArchived => "届次已归档",
            CohortError::NotArchived => "届次未归档",
            CohortError::CannotBeCurrent => "已归档届次不能设为当前",
        };
        to_owned_string(s)
    }
}

/// Whether a status string marks an archived cohort.
pub fn status_is_archived(status: &str) -> (r: bool)
    ensures
        r == (status@ == archived_status()),
{
    str_eq(status, "已归档")
}

/// Whether a status string marks a cohort in use.
pub fn status_is_active(status: &str) -> (r: bool)
    ensures
        r == (status@ == active_status()),
{
    str_eq(status, "使用中")
}

/// Whether data of a cohort may be written, given its status (`None` when the
/// cohort does not exist).
pub open spec fn writable(status: Option<Seq<char>>) -> Result<(), CohortError> {
    match status {
        None => Err(CohortError::Missing),
        Some(s) => if s == archived_status() {
            Err(CohortError::ReadOnly)
        } else {
            Ok(())
        },
    }
}

/// Checks that data of a cohort may be written, given the cohort's status as
/// read from storage (`None` when no cohort has the id).
pub fn check_cohort_readonly(status: Option<&str>) -> (r: Result<(), CohortError>)
    ensures
        r == writable(
            match status {
                Some(s) => Some(s@),
                None => None,
            },
        ),
{
    match status {
        None => Err(CohortError::Missing),
        Some(s) => if status_is_archived(s) {
            Err(CohortError::ReadOnly)
        } else {
            Ok(())
        },
    }
}

/// Whether the new cohort becomes the current one: only the very first does.
pub fn new_cohort_is_current(existing_count: i64) -> (r: bool)
    ensures
        r == (existing_count == 0),
{
    existing_count == 0
}

/// The first index of `rows` whose id is `id`.
pub open spec fn find(rows: Seq<Cohort>, id: i64) -> Option<int>
    decreases rows.len(),
{
    if rows.len() == 0 {
        None
    } else {
        match find(rows.drop_last(), id) {
            Some(i) => Some(i),
            None => if rows.last().id == id {
                Some(rows.len() - 1)
            } else {
                None
            },
        }
    }
}

/// Which cohorts a least-id search looks at.
#[derive(Clone, Copy, Debug, PartialEq, Eq, Structural)]
pub enum Selector {
    /// Cohorts marked current and in use.
    Current,
    /// Cohorts in use other than the one with this id.
    OtherActive(i64),
    /// Cohorts in use.
    Active,
}

pub open spec fn selects(sel: Selector, c: Cohort) -> bool {
    match sel {
        Selector::Current => is_current_candidate(c),
        Selector::OtherActive(id) => c.id != id && is_active(c),
        Selector::Active => is_active(c),
    }
}

/// The index of the row with the least id among those that `sel` picks (the
/// first such row when ids repeat), as `ORDER BY id ASC LIMIT 1` finds it.
pub open spec fn least_id(rows: Seq<Cohort>, sel: Selector) -> Option<int>
    decreases rows.len(),
{
    if rows.len() == 0 {
        None
    } else {
        let prev = least_id(rows.drop_last(), sel);
        if selects(sel, rows.last()) && (prev is None || rows.last().id < rows[prev.unwrap()].id) {
            Some(rows.len() - 1)
        } else {
            prev
        }
    }
}

/// The current cohort: the least id among rows marked current and in use.
pub open spec fn current_of(rows: Seq<Cohort>) -> Option<int> {
    least_id(rows, Selector::Current)
}

/// The cohort that takes over as current when cohort `id` is archived: the
/// least id among the other cohorts in use.
pub open spec fn successor_of(rows: Seq<Cohort>, id: i64) -> Option<int> {
    least_id(rows, Selector::OtherActive(id))
}

/// The first cohort in use by id, which becomes current when none is.
pub open spec fn first_active(rows: Seq<Cohort>) -> Option<int> {
    least_id(rows, Selector::Active)
}

proof fn lemma_find_facts(rows: Seq<Cohort>, id: i64)
    ensures
        find(rows, id) matches Some(i) ==> 0 <= i < rows.len() && rows[i].id == id && forall|j: int|
            0 <= j < i ==> rows[j].id != id,
        find(rows, id) is None ==> forall|j: int| 0 <= j < rows.len() ==> rows[j].id != id,
    decreases rows.len(),
{
    if rows.len() > 0 {
        let t = rows.drop_last();
        lemma_find_facts(t, id);
        assert(forall|j: int| 0 <= j < t.len() ==> t[j] == rows[j]);
    }
}

proof fn lemma_least_id_facts(rows: Seq<Cohort>, p: Selector)
    ensures
        least_id(rows, p) matches Some(i) ==> 0 <= i < rows.len() && selects(p, rows[i]) && forall|j: int|
            0 <= j < rows.len() && selects(p, rows[j]) ==> rows[i].id <= rows[j].id,
        least_id(rows, p) is None ==> forall|j: int| 0 <= j < rows.len() ==> !selects(p, rows[j]),
    decreases rows.len(),
{
    if rows.len() > 0 {
        let t = rows.drop_last();
        lemma_least_id_facts(t, p);
        assert(forall|j: int| 0 <= j < t.len() ==> t[j] == rows[j]);
    }
}

/// Every cohort id occurs once.
pub open spec fn distinct_ids(rows: Seq<Cohort>) -> bool {
    forall|i: int, j: int| 0 <= i < rows.len() && 0 <= j < rows.len() && i != j ==> rows[i].id != rows[j].id
}


/// The cohort with only its current mark changed.
pub open spec fn with_current(c: Cohort, flag: bool) -> Cohort {
    Cohort { is_current: flag, ..c }
}

/// The status (view) of the first cohort with this id, if any.
pub open spec fn status_of(rows: Seq<Cohort>, id: i64) -> Option<Seq<char>> {
    match find(rows, id) {
        Some(i) => Some(rows[i].status@),
        None => None,
    }
}

/// `new` is `old` archived at `now`: status archived, archive time and update
/// time `now`, no longer current when `clear_current`, every other field kept.
pub open spec fn archived_version(old: Cohort, new: Cohort, now: Seq<char>, clear_current: bool) -> bool {
    &&& new.status@ == archived_status()
    &&& new.archive_time matches Some(t) && t@ == now
    &&& new.updated_at@ == now
    &&& new.is_current == (if clear_current { false } else { old.is_current })
    &&& new.id == old.id && new.cohort_name == old.cohort_name && new.class_name == old.class_name
    &&& new.grade_name == old.grade_name && new.school_name == old.school_name
    &&& new.head_teacher == old.head_teacher && new.admission_year == old.admission_year
    &&& new.graduation_year == old.graduation_year && new.semester == old.semester
    &&& new.remark == old.remark && new.created_at == old.created_at
}

/// `new` is `old` taken back into use at `now`: status in use, no archive
/// time, update time `now`, every other field kept.
pub open spec fn unarchived_version(old: Cohort, new: Cohort, now: Seq<char>) -> bool {
    &&& new.status@ == active_status()
    &&& new.archive_time is None
    &&& new.updated_at@ == now
    &&& new.is_current == old.is_current
    &&& new.id == old.id && new.cohort_name == old.cohort_name && new.class_name == old.class_name
    &&& new.grade_name == old.grade_name && new.school_name == old.school_name
    &&& new.head_teacher == old.head_teacher && new.admission_year == old.admission_year
    &&& new.graduation_year == old.graduation_year && new.semester == old.semester
    &&& new.remark == old.remark && new.created_at == old.created_at
}

/// What archiving cohort `id` (found at index `i`) does to the rows: the
/// cohort is archived; when it was current, it stops being current and the
/// least id among the other cohorts in use becomes current.
pub open spec fn archive_done(old: Seq<Cohort>, new: Seq<Cohort>, i: int, now: Seq<char>) -> bool {
    let was_current = old[i].is_current;
    let heir = successor_of(old, old[i].id);
    &&& new.len() == old.len()
    &&& archived_version(old[i], new[i], now, was_current)
    &&& forall|j: int|
        0 <= j < old.len() && j != i ==> #[trigger] new[j] == (if was_current && heir == Some(j) {
            with_current(old[j], true)
        } else {
            old[j]
        })
}

/// What taking cohort `i` out of the archive does to the rows.
pub open spec fn unarchive_done(old: Seq<Cohort>, new: Seq<Cohort>, i: int, now: Seq<char>) -> bool {
    &&& new.len() == old.len()
    &&& unarchived_version(old[i], new[i], now)
    &&& forall|j: int| 0 <= j < old.len() && j != i ==> #[trigger] new[j] == old[j]
}

/// What making cohort `id` the current one does: it alone is marked current.
pub open spec fn set_current_done(old: Seq<Cohort>, new: Seq<Cohort>, id: i64) -> bool {
    &&& new.len() == old.len()
    &&& forall|j: int| 0 <= j < old.len() ==> #[trigger] new[j] == with_current(old[j], old[j].id == id)
}

/// The fields of a cohort that an edit may replace; `None` keeps the old value.
#[derive(Debug)]
pub struct CohortPatch {
    pub cohort_name: Option<String>,
    pub class_name: Option<String>,
    pub grade_name: Option<String>,
    pub school_name: Option<String>,
    pub head_teacher: Option<String>,
    pub admission_year: Option<i64>,
    pub graduation_year: Option<i64>,
    pub semester: Option<String>,
    pub remark: Option<String>,
}

/// `COALESCE(new, old)`.
pub open spec fn coalesce<T>(p: Option<T>, old: T) -> T {
    match p {
        Some(v) => v,
        None => old,
    }
}

/// `COALESCE(new, old)` for a column that may be empty.
pub open spec fn coalesce_opt<T>(p: Option<T>, old: Option<T>) -> Option<T> {
    match p {
        Some(v) => Some(v),
        None => old,
    }
}

/// `new` is `old` edited by `patch` at `now`.
pub open spec fn patched_version(old: Cohort, new: Cohort, patch: CohortPatch, now: Seq<char>) -> bool {
    &&& new.cohort_name == coalesce(patch.cohort_name, old.cohort_name)
    &&& new.class_name == coalesce(patch.class_name, old.class_name)
    &&& new.grade_name == coalesce_opt(patch.grade_name, old.grade_name)
    &&& new.school_name == coalesce_opt(patch.school_name, old.school_name)
    &&& new.head_teacher == coalesce_opt(patch.head_teacher, old.head_teacher)
    &&& new.admission_year == coalesce_opt(patch.admission_year, old.admission_year)
    &&& new.graduation_year == coalesce_opt(patch.graduation_year, old.graduation_year)
    &&& new.semester == coalesce_opt(patch.semester, old.semester)
    &&& new.remark == coalesce_opt(patch.remark, old.remark)
    &&& new.updated_at@ == now
    &&& new.id == old.id && new.status == old.status && new.is_current == old.is_current
    &&& new.archive_time == old.archive_time && new.created_at == old.created_at
}

/// The fields of a new cohort that its creator gives.
#[derive(Debug)]
pub struct NewCohort {
    pub cohort_name: String,
    pub class_name: String,
    pub grade_name: Option<String>,
    pub school_name: Option<String>,
    pub head_teacher: Option<String>,
    pub admission_year: Option<i64>,
    pub graduation_year: Option<i64>,
    pub semester: Option<String>,
    pub remark: Option<String>,
}

/// `c` is the cohort created from `n` with id `id` at `now`; it is current
/// exactly when it is the first cohort.
pub open spec fn created_version(c: Cohort, n: NewCohort, id: i64, now: Seq<char>, first: bool) -> bool {
    &&& c.id == id
    &&& c.cohort_name == n.cohort_name && c.class_name == n.class_name
    &&& c.grade_name == n.grade_name && c.school_name == n.school_name
    &&& c.head_teacher == n.head_teacher && c.admission_year == n.admission_year
    &&& c.graduation_year == n.graduation_year && c.semester == n.semester && c.remark == n.remark
    &&& c.status@ == active_status()
    &&& c.is_current == first
    &&& c.archive_time is None
    &&& c.created_at@ == now && c.updated_at@ == now
}

/// All cohorts, in the order storage lists them.
pub struct CohortRegistry {
    rows: Vec<Cohort>,
}

impl View for CohortRegistry {
    type V = Seq<Cohort>;

    closed spec fn view(&self) -> Seq<Cohort> {
        self.rows@
    }
}

impl CohortRegistry {
    /// The registry is well formed: every id occurs once.
    pub open spec fn wf(&self) -> bool {
        distinct_ids(self@)
    }

    /// A registry of the given rows, or `None` when an id occurs twice.
    pub fn from_rows(rows: Vec<Cohort>) -> (r: Option<CohortRegistry>)
        ensures
            r matches Some(reg) ==> reg@ == rows@ && reg.wf(),
            r is None <==> !distinct_ids(rows@),
    {
        let mut i: usize = 0;
        while i < rows.len()
            invariant
                i <= rows@.len(),
                forall|a: int, b: int| 0 <= a < i && 0 <= b < rows@.len() && a != b ==> rows@[a].id != rows@[b].id,
            decreases rows.len() - i,
        {
            let mut j: usize = 0;
            while j < rows.len()
                invariant
                    i < rows@.len(),
                    j <= rows@.len(),
                    forall|a: int, b: int| 0 <= a < i && 0 <= b < rows@.len() && a != b ==> rows@[a].id != rows@[b].id,
                    forall|b: int| 0 <= b < j && b != i ==> rows@[i as int].id != rows@[b].id,
                decreases rows.len() - j,
            {
                if j != i && rows[i].id == rows[j].id {
                    return None;
                }
                j = j + 1;
            }
            i = i + 1;
        }
        Some(CohortRegistry { rows })
    }

    /// The rows of the registry.
    pub fn rows(&self) -> (r: &Vec<Cohort>)
        ensures
            r@ == self@,
    {
        &self.rows
    }

    /// The rows of the registry, handed over.
    pub fn into_rows(self) -> (r: Vec<Cohort>)
        ensures
            r@ == self@,
    {
        self.rows
    }

    /// The index of the cohort with this id (`get_cohort`).
    pub fn find_index(&self, id: i64) -> (r: Option<usize>)
        ensures
            r matches Some(i) ==> find(self@, id) == Some(i as int) && i < self@.len(),
            r is None ==> find(self@, id) is None,
    {
        let mut i: usize = 0;
        while i < self.rows.len()
            invariant
                i <= self.rows@.len(),
                find(self.rows@.take(i as int), id) is None,
            decreases self.rows.len() - i,
        {
            proof {
                assert(self.rows@.take(i + 1).drop_last() =~= self.rows@.take(i as int));
            }
            if self.rows[i].id == id {
                proof {
                    lemma_find_prefix(self.rows@, id, i as int);
                }
                return Some(i);
            }
            i = i + 1;
        }
        proof {
            assert(self.rows@.take(self.rows@.len() as int) =~= self.rows@);
        }
        None
    }

    /// The index of the row with the least id among those `sel` picks.
    pub fn least_id_index(&self, sel: Selector) -> (r: Option<usize>)
        ensures
            r matches Some(i) ==> least_id(self@, sel) == Some(i as int),
            r is None ==> least_id(self@, sel) is None,
    {
        let mut best: Option<usize> = None;
        let mut i: usize = 0;
        while i < self.rows.len()
            invariant
                i <= self.rows@.len(),
                best matches Some(b) ==> b < i && least_id(self.rows@.take(i as int), sel) == Some(b as int),
                best is None ==> least_id(self.rows@.take(i as int), sel) is None,
            decreases self.rows.len() - i,
        {
            let ghost pre = self.rows@.take(i + 1);
            proof {
                assert(pre.drop_last() =~= self.rows@.take(i as int));
                assert(pre.last() == self.rows@[i as int]);
                if let Some(b) = best {
                    assert(pre[b as int] == self.rows@[b as int]);
                }
            }
            let c = &self.rows[i];
            let picked = match sel {
                Selector::Current => c.is_current && status_is_active(c.status.as_str()),
                Selector::OtherActive(x) => c.id != x && status_is_active(c.status.as_str()),
                Selector::Active => status_is_active(c.status.as_str()),
            };
            let better = match best {
                None => true,
                Some(b) => c.id < self.rows[b].id,
            };
            if picked && better {
                best = Some(i);
            }
            i = i + 1;
        }
        proof {
            assert(self.rows@.take(self.rows@.len() as int) =~= self.rows@);
        }
        best
    }

    /// The index of the current cohort (`get_current_cohort`).
    pub fn current_index(&self) -> (r: Option<usize>)
        ensures
            r matches Some(i) ==> current_of(self@) == Some(i as int),
            r is None ==> current_of(self@) is None,
    {
        self.least_id_index(Selector::Current)
    }

    /// Checks that data of cohort `id` may be written.
    pub fn check_writable(&self, id: i64) -> (r: Result<(), CohortError>)
        ensures
            r == writable(status_of(self@, id)),
    {
        match self.find_index(id) {
            None => Err(CohortError::Missing),
            Some(i) => if status_is_archived(self.rows[i].status.as_str()) {
                Err(CohortError::ReadOnly)
            } else {
                Ok(())
            },
        }
    }

    /// Archives cohort `id` at time `now` (`archive_cohort`).
    pub fn archive(&mut self, id: i64, now: &str) -> (r: Result<(), CohortError>)
        requires
            old(self).wf(),
        ensures
            final(self).wf(),
            find(old(self)@, id) is None ==> r == Err::<(), CohortError>(CohortError::NotFound)
                && final(self)@ == old(self)@,
            find(old(self)@, id) matches Some(i) && is_archived(old(self)@[i]) ==> r == Err::<
                (),
                CohortError,
            >(CohortError::AlreadyArchived) && final(self)@ == old(self)@,
            find(old(self)@, id) matches Some(i) && !is_archived(old(self)@[i]) ==> r is Ok
                && archive_done(old(self)@, final(self)@, find(old(self)@, id).unwrap(), now@),
    {
        let i = match self.find_index(id) {
            None => return Err(CohortError::NotFound),
            Some(i) => i,
        };
        proof {
            lemma_find_facts(self.rows@, id);
        }
        if status_is_archived(self.rows[i].status.as_str()) {
            return Err(CohortError::AlreadyArchived);
        }
        let ghost old_rows = self.rows@;
        let was_current = self.rows[i].is_current;
        if was_current {
            let heir = self.least_id_index(Selector::OtherActive(id));
            proof {
                lemma_least_id_facts(self.rows@, Selector::OtherActive(id));
            }
            if let Some(k) = heir {
                self.rows[k].is_current = true;
            }
            self.rows[i].is_current = false;
        }
        self.rows[i].status = to_owned_string("已归档");
        self.rows[i].archive_time = Some(to_owned_string(now));
        self.rows[i].updated_at = to_owned_string(now);
        proof {
            assert forall|a: int, b: int| 0 <= a < self.rows@.len() && 0 <= b < self.rows@.len() && a != b implies self.rows@[a].id != self.rows@[b].id by {
                assert(self.rows@[a].id == old_rows[a].id);
                assert(self.rows@[b].id == old_rows[b].id);
            }
        }
        Ok(())
    }

    /// Takes cohort `id` back into use at time `now` (`unarchive_cohort`).
    pub fn unarchive(&mut self, id: i64, now: &str) -> (r: Result<(), CohortError>)
        requires
            old(self).wf(),
        ensures
            final(self).wf(),
            find(old(self)@, id) is None ==> r == Err::<(), CohortError>(CohortError::NotFound)
                && final(self)@ == old(self)@,
            find(old(self)@, id) matches Some(i) && is_active(old(self)@[i]) ==> r == Err::<
                (),
                CohortError,
            >(CohortError::NotArchived) && final(self)@ == old(self)@,
            find(old(self)@, id) matches Some(i) && !is_active(old(self)@[i]) ==> r is Ok
                && unarchive_done(old(self)@, final(self)@, find(old(self)@, id).unwrap(), now@),
    {
        let i = match self.find_index(id) {
            None => return Err(CohortError::NotFound),
            Some(i) => i,
        };
        proof {
            lemma_find_facts(self.rows@, id);
        }
        if status_is_active(self.rows[i].status.as_str()) {
            return Err(CohortError::NotArchived);
        }
        let ghost old_rows = self.rows@;
        self.rows[i].status = to_owned_string("使用中");
        self.rows[i].archive_time = None;
        self.rows[i].updated_at = to_owned_string(now);
        proof {
            assert forall|a: int, b: int| 0 <= a < self.rows@.len() && 0 <= b < self.rows@.len() && a != b implies self.rows@[a].id != self.rows@[b].id by {
                assert(self.rows@[a].id == old_rows[a].id);
                assert(self.rows@[b].id == old_rows[b].id);
            }
        }
        Ok(())
    }

    /// Makes cohort `id` the one current cohort (`set_current_cohort`).
    pub fn set_current(&mut self, id: i64) -> (r: Result<(), CohortError>)
        requires
            old(self).wf(),
        ensures
            final(self).wf(),
            find(old(self)@, id) is None ==> r == Err::<(), CohortError>(CohortError::NotFound)
                && final(self)@ == old(self)@,
            find(old(self)@, id) matches Some(i) && is_archived(old(self)@[i]) ==> r == Err::<
                (),
                CohortError,
            >(CohortError::CannotBeCurrent) && final(self)@ == old(self)@,
            find(old(self)@, id) matches Some(i) && !is_archived(old(self)@[i]) ==> r is Ok
                && set_current_done(old(self)@, final(self)@, id),
    {
        let i = match self.find_index(id) {
            None => return Err(CohortError::NotFound),
            Some(i) => i,
        };
        if status_is_archived(self.rows[i].status.as_str()) {
            return Err(CohortError::CannotBeCurrent);
        }
        let ghost old_rows = self.rows@;
        let mut j: usize = 0;
        while j < self.rows.len()
            invariant
                self.rows@.len() == old_rows.len(),
                j <= self.rows@.len(),
                forall|k: int| 0 <= k < j ==> #[trigger] self.rows@[k] == with_current(old_rows[k], old_rows[k].id == id),
                forall|k: int| j <= k < self.rows@.len() ==> #[trigger] self.rows@[k] == old_rows[k],
            decreases self.rows.len() - j,
        {
            let flag = self.rows[j].id == id;
            self.rows[j].is_current = flag;
            j = j + 1;
        }
        proof {
            assert forall|a: int, b: int| 0 <= a < self.rows@.len() && 0 <= b < self.rows@.len() && a != b implies self.rows@[a].id != self.rows@[b].id by {
                assert(self.rows@[a].id == old_rows[a].id);
                assert(self.rows@[b].id == old_rows[b].id);
            }
        }
        Ok(())
    }
}

impl CohortRegistry {
    /// Edits cohort `id` at time `now` (`update_cohort`).
    pub fn update(&mut self, id: i64, patch: CohortPatch, now: &str) -> (r: Result<(), CohortError>)
        requires
            old(self).wf(),
        ensures
            final(self).wf(),
            find(old(self)@, id) is None ==> r == Err::<(), CohortError>(CohortError::NotFound)
                && final(self)@ == old(self)@,
            find(old(self)@, id) matches Some(i) && is_archived(old(self)@[i]) ==> r == Err::<
                (),
                CohortError,
            >(CohortError::NotEditable) && final(self)@ == old(self)@,
            find(old(self)@, id) matches Some(i) && !is_archived(old(self)@[i]) ==> r is Ok
                && final(self)@.len() == old(self)@.len() && patched_version(
                old(self)@[find(old(self)@, id).unwrap()],
                final(self)@[find(old(self)@, id).unwrap()],
                patch,
                now@,
            ) && forall|j: int|
                0 <= j < old(self)@.len() && j != find(old(self)@, id).unwrap() ==> #[trigger] final(self)@[j] == old(self)@[j],
    {
        let i = match self.find_index(id) {
            None => return Err(CohortError::NotFound),
            Some(i) => i,
        };
        if status_is_archived(self.rows[i].status.as_str()) {
            return Err(CohortError::NotEditable);
        }
        let ghost old_rows = self.rows@;
        apply_patch(&mut self.rows[i], patch, now);
        proof {
            assert forall|a: int, b: int| 0 <= a < self.rows@.len() && 0 <= b < self.rows@.len() && a != b implies self.rows@[a].id != self.rows@[b].id by {
                assert(self.rows@[a].id == old_rows[a].id);
                assert(self.rows@[b].id == old_rows[b].id);
            }
        }
        Ok(())
    }

    /// Adds the cohort created from `n` under the fresh id `id` at time `now`
    /// (`create_cohort`); the first cohort of all becomes the current one.
    pub fn create(&mut self, id: i64, n: NewCohort, now: &str)
        requires
            old(self).wf(),
            forall|j: int| 0 <= j < old(self)@.len() ==> old(self)@[j].id != id,
        ensures
            final(self).wf(),
            final(self)@.len() == old(self)@.len() + 1,
            final(self)@.drop_last() == old(self)@,
            created_version(final(self)@.last(), n, id, now@, old(self)@.len() == 0),
    {
        let first = self.rows.len() == 0;
        let ghost ng = n;
        let NewCohort {
            cohort_name,
            class_name,
            grade_name,
            school_name,
            head_teacher,
            admission_year,
            graduation_year,
            semester,
            remark,
        } = n;
        let c = Cohort {
            id,
            cohort_name,
            class_name,
            grade_name,
            school_name,
            head_teacher,
            admission_year,
            graduation_year,
            semester,
            status: to_owned_string("使用中"),
            is_current: first,
            archive_time: None,
            remark,
            created_at: to_owned_string(now),
            updated_at: to_owned_string(now),
        };
        let ghost old_rows = self.rows@;
        self.rows.push(c);
        proof {
            assert(self.rows@.drop_last() =~= old_rows);
        }
    }

    /// Marks the first cohort in use as current when no cohort is current.
    pub fn ensure_current(&mut self)
        requires
            old(self).wf(),
        ensures
            final(self).wf(),
            current_of(old(self)@) is Some ==> final(self)@ == old(self)@,
            current_of(old(self)@) is None && first_active(old(self)@) is None ==> final(self)@ == old(self)@,
            current_of(old(self)@) is None && first_active(old(self)@) is Some ==> final(self)@
                == old(self)@.update(
                first_active(old(self)@).unwrap(),
                with_current(old(self)@[first_active(old(self)@).unwrap()], true),
            ),
    {
        if self.current_index().is_some() {
            return;
        }
        let ghost old_rows = self.rows@;
        match self.least_id_index(Selector::Active) {
            None => {},
            Some(k) => {
                proof {
                    lemma_least_id_facts(self.rows@, Selector::Active);
                }
                self.rows[k].is_current = true;
                proof {
                    assert(self.rows@ =~= old_rows.update(k as int, with_current(old_rows[k as int], true)));
                    assert forall|a: int, b: int| 0 <= a < self.rows@.len() && 0 <= b < self.rows@.len() && a != b implies self.rows@[a].id != self.rows@[b].id by {
                        assert(self.rows@[a].id == old_rows[a].id);
                        assert(self.rows@[b].id == old_rows[b].id);
                    }
                }
            },
        }
    }
}

fn apply_patch(c: &mut Cohort, patch: CohortPatch, now: &str)
    ensures
        patched_version(*old(c), *final(c), patch, now@),
{
    let CohortPatch {
        cohort_name,
        class_name,
        grade_name,
        school_name,
        head_teacher,
        admission_year,
        graduation_year,
        semester,
        remark,
    } = patch;
    if let Some(v) = cohort_name {
        c.cohort_name = v;
    }
    if let Some(v) = class_name {
        c.class_name = v;
    }
    if let Some(v) = grade_name {
        c.grade_name = Some(v);
    }
    if let Some(v) = school_name {
        c.school_name = Some(v);
    }
    if let Some(v) = head_teacher {
        c.head_teacher = Some(v);
    }
    if let Some(v) = admission_year {
        c.admission_year = Some(v);
    }
    if let Some(v) = graduation_year {
        c.graduation_year = Some(v);
    }
    if let Some(v) = semester {
        c.semester = Some(v);
    }
    if let Some(v) = remark {
        c.remark = Some(v);
    }
    c.updated_at = to_owned_string(now);
}

proof fn lemma_find_distinct(rows: Seq<Cohort>, i: int)
    requires
        distinct_ids(rows),
        0 <= i < rows.len(),
    ensures
        find(rows, rows[i].id) == Some(i),
{
    lemma_find_facts(rows, rows[i].id);
}

proof fn lemma_least_id_unique(rows: Seq<Cohort>, sel: Selector, i: int)
    requires
        distinct_ids(rows),
        0 <= i < rows.len(),
        selects(sel, rows[i]),
        forall|j: int| 0 <= j < rows.len() && j != i ==> !selects(sel, #[trigger] rows[j]),
    ensures
        least_id(rows, sel) == Some(i),
{
    lemma_least_id_facts(rows, sel);
}

/// Once a cohort is archived, its data can no longer be written.
pub proof fn law_archived_cohort_is_read_only(old: Seq<Cohort>, new: Seq<Cohort>, i: int, now: Seq<char>)
    requires
        distinct_ids(old),
        0 <= i < old.len(),
        archive_done(old, new, i, now),
    ensures
        writable(status_of(new, old[i].id)) == Err::<(), CohortError>(CohortError::ReadOnly),
{
    assert(distinct_ids(new)) by {
        assert forall|a: int, b: int| 0 <= a < new.len() && 0 <= b < new.len() && a != b implies new[a].id != new[b].id by {
            if a != i {
                assert(new[a].id == old[a].id);
            }
            if b != i {
                assert(new[b].id == old[b].id);
            }
        }
    }
    lemma_find_distinct(new, i);
}

/// Taking a cohort out of the archive makes its data writable again.
pub proof fn law_unarchived_cohort_is_writable(old: Seq<Cohort>, new: Seq<Cohort>, i: int, now: Seq<char>)
    requires
        distinct_ids(old),
        0 <= i < old.len(),
        unarchive_done(old, new, i, now),
    ensures
        writable(status_of(new, old[i].id)) == Ok::<(), CohortError>(()),
{
    assert(distinct_ids(new)) by {
        assert forall|a: int, b: int| 0 <= a < new.len() && 0 <= b < new.len() && a != b implies new[a].id != new[b].id by {
            if a != i {
                assert(new[a].id == old[a].id);
            }
            if b != i {
                assert(new[b].id == old[b].id);
            }
        }
    }
    lemma_find_distinct(new, i);
    reveal_strlit("使用中");
    reveal_strlit("已归档");
    assert(active_status()[0] != archived_status()[0]);
}

/// After a cohort in use is made current, it is the current cohort and no
/// other cohort is marked current.
pub proof fn law_set_current_selects_it(old: Seq<Cohort>, new: Seq<Cohort>, i: int)
    requires
        distinct_ids(old),
        0 <= i < old.len(),
        is_active(old[i]),
        set_current_done(old, new, old[i].id),
    ensures
        current_of(new) == Some(i),
        forall|j: int| 0 <= j < new.len() && j != i ==> !(#[trigger] new[j]).is_current,
{
    assert(distinct_ids(new)) by {
        assert forall|a: int, b: int| 0 <= a < new.len() && 0 <= b < new.len() && a != b implies new[a].id != new[b].id by {
            assert(new[a].id == old[a].id);
            assert(new[b].id == old[b].id);
        }
    }
    assert forall|j: int| 0 <= j < new.len() && j != i implies !selects(Selector::Current, #[trigger] new[j]) by {
        assert(new[j] == with_current(old[j], old[j].id == old[i].id));
    }
    lemma_least_id_unique(new, Selector::Current, i);
}

/// When the only current cohort is archived, the current cohort becomes the
/// one with the least id among the other cohorts in use, if there is any.
pub proof fn law_archive_hands_over_current(old: Seq<Cohort>, new: Seq<Cohort>, i: int, now: Seq<char>)
    requires
        distinct_ids(old),
        0 <= i < old.len(),
        old[i].is_current,
        forall|j: int| 0 <= j < old.len() && j != i ==> !(#[trigger] old[j]).is_current,
        archive_done(old, new, i, now),
    ensures
        current_of(new) == successor_of(old, old[i].id),
{
    lemma_least_id_facts(old, Selector::OtherActive(old[i].id));
    reveal_strlit("使用中");
    reveal_strlit("已归档");
    assert(active_status()[0] != archived_status()[0]);
    assert(!selects(Selector::Current, new[i]));
    match successor_of(old, old[i].id) {
        Some(k) => {
            assert(distinct_ids(new)) by {
                assert forall|a: int, b: int| 0 <= a < new.len() && 0 <= b < new.len() && a != b implies new[a].id != new[b].id by {
                    if a != i {
                        assert(new[a].id == old[a].id);
                    }
                    if b != i {
                        assert(new[b].id == old[b].id);
                    }
                }
            }
            assert(new[k] == with_current(old[k], true));
            assert forall|j: int| 0 <= j < new.len() && j != k implies !selects(Selector::Current, #[trigger] new[j]) by {
                if j != i {
                    assert(new[j] == old[j]);
                }
            }
            lemma_least_id_unique(new, Selector::Current, k);
        },
        None => {
            lemma_least_id_facts(new, Selector::Current);
            assert forall|j: int| 0 <= j < new.len() implies !selects(Selector::Current, #[trigger] new[j]) by {
                if j != i {
                    assert(new[j] == old[j]);
                }
            }
        },
    }
}

/// A created cohort is current exactly when it is the first cohort of all:
/// the first one becomes the current cohort, and one created later is not
/// current and leaves the current cohort as it was.
pub proof fn law_first_cohort_is_current(old: Seq<Cohort>, new: Seq<Cohort>, n: NewCohort, id: i64, now: Seq<char>)
    requires
        new.len() == old.len() + 1,
        new.drop_last() == old,
        created_version(new.last(), n, id, now, old.len() == 0),
    ensures
        new.last().is_current == (old.len() == 0),
        old.len() == 0 ==> current_of(new) == Some(0int),
        old.len() > 0 ==> current_of(new) == current_of(old),
{
    assert(new.drop_last() == old);
}

/// After the start-up check, some cohort is current whenever a cohort is in use.
pub proof fn law_ensure_current_finds_one(old: Seq<Cohort>, new: Seq<Cohort>)
    requires
        current_of(old) is None && first_active(old) is Some ==> new == old.update(
            first_active(old).unwrap(),
            with_current(old[first_active(old).unwrap()], true),
        ),
        current_of(old) is Some ==> new == old,
        first_active(old) is Some,
    ensures
        current_of(new) is Some,
{
    lemma_least_id_facts(old, Selector::Active);
    if current_of(old) is None {
        let k = first_active(old).unwrap();
        lemma_least_id_facts(new, Selector::Current);
        assert(selects(Selector::Current, new[k]));
    }
}

proof fn lemma_find_prefix(rows: Seq<Cohort>, id: i64, i: int)
    requires
        0 <= i < rows.len(),
        rows[i].id == id,
        find(rows.take(i), id) is None,
    ensures
        find(rows, id) == Some(i),
{
    lemma_find_facts(rows.take(i), id);
    lemma_find_facts(rows, id);
    if let Some(k) = find(rows, id) {
        if k < i {
            assert(rows.take(i)[k] == rows[k]);
        }
    }
}

} // verus!
