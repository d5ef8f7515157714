use vstd::prelude::*;

use crate::backup::{
    backup_error_text, check_row_counts, check_tables_present, first_missing, import_sql,
    import_table_sql, restore_failure_message, shared, BackupError,
};
use crate::tables::{
    delete_order, get_delete_order, get_insert_order, insert_order, law_delete_order_children_first,
    law_insert_order_parents_first, table_name, Table,
};
use crate::text::views;

verus! {

/// Where a restore stands.
#[derive(Clone, Copy, Debug, PartialEq, Eq, Structural)]
pub enum RestorePhase {
    /// Bringing the current database's schema up to date.
    Migrating,
    /// Checking the backup file or package.
    Validating,
    /// Writing the automatic backup of the current database.
    BackingUp,
    /// Attaching the backup database.
    Attaching,
    /// Asking whether each table of the insert order exists in the backup.
    CheckingTables,
    /// Counting the rows of each table of the backup, in insert order.
    CountingBackup,
    /// Opening the transaction, with foreign keys off.
    Beginning,
    /// Emptying the table at this position of the delete order.
    Deleting(usize),
    /// Switching foreign keys back on.
    EnablingKeys,
    /// Reading the columns of the table at this position of the insert order.
    ReadingColumns(usize),
    /// Copying the table at this position of the insert order.
    Importing(usize),
    /// Counting the rows of each restored table, in insert order.
    CountingRestored,
    /// Committing the transaction.
    Committing,
    /// The restore succeeded.
    Finished,
    /// The restore failed.
    Failed,
}

/// The state of a restore: its phase, whether the automatic backup was
/// written, where it was written, and what was learnt of the tables so far
/// (`present`, `expected` and `actual` follow the insert order).
#[derive(Debug)]
pub struct RestoreState {
    pub phase: RestorePhase,
    pub backed_up: bool,
    pub auto_backup_path: String,
    pub present: Vec<bool>,
    pub expected: Vec<i64>,
    pub actual: Vec<i64>,
}

/// What the storage layer reports after carrying out an action.
#[derive(Debug)]
pub enum RestoreEvent {
    /// The action succeeded.
    Done,
    /// The action failed, with this message.
    Failed(String),
    /// Whether the table asked about exists in the backup.
    TableExists(bool),
    /// The number of rows of the table asked about.
    RowCount(i64),
    /// The columns of the table asked about, in the current database and in the backup.
    Columns { main: Vec<String>, backup: Vec<String> },
}

/// What the storage layer is asked to do next.
#[derive(Debug)]
pub enum RestoreAction {
    /// Bring the current schema up to date.
    Migrate,
    /// Check the backup file or package.
    Validate,
    /// Write the automatic backup of the current database.
    WriteAutoBackup,
    /// Attach the backup database.
    Attach,
    /// Report whether this table exists in the backup.
    CheckTable(Table),
    /// Report the number of rows of this table in the backup.
    CountBackupRows(Table),
    /// Open the transaction and switch foreign keys off.
    BeginWithoutKeys,
    /// Empty this table.
    DeleteTable(Table),
    /// Switch foreign keys back on.
    EnableKeys,
    /// Report the columns of this table, in the current database and in the backup.
    ReadColumns(Table),
    /// Run `sql`, which copies `table` from the backup.
    Import { table: Table, sql: String },
    /// Report the number of rows of this table after the copy.
    CountRows(Table),
    /// Commit the transaction.
    Commit,
    /// Detach the backup and report success.
    Finish,
    /// Report this failure; nothing was changed.
    Fail(String),
    /// Roll the transaction back, detach the backup and report this failure.
    Rollback(String),
}

/// The number of tables a restore handles.
pub open spec fn table_count() -> int {
    insert_order().len() as int
}

/// Whether the phase comes before the backup is attached.
pub open spec fn before_attach(p: RestorePhase) -> bool {
    p is Migrating || p is Validating || p is BackingUp || p is Attaching
}

/// Whether the automatic backup must have been written in this phase.
pub open spec fn after_backup(p: RestorePhase) -> bool {
    !(p is Migrating || p is Validating || p is BackingUp || p is Failed)
}

/// The well-formed states of a restore.
pub open spec fn restore_wf(s: RestoreState) -> bool {
    let n = table_count();
    &&& s.present@.len() <= n && s.expected@.len() <= n && s.actual@.len() <= n
    &&& (s.phase is Migrating || s.phase is Validating || s.phase is BackingUp) ==> !s.backed_up
    &&& after_backup(s.phase) ==> s.backed_up
    &&& match s.phase {
        RestorePhase::Migrating | RestorePhase::Validating | RestorePhase::BackingUp
        | RestorePhase::Attaching => s.present@.len() == 0 && s.expected@.len() == 0
            && s.actual@.len() == 0,
        RestorePhase::CheckingTables => s.present@.len() < n && s.expected@.len() == 0
            && s.actual@.len() == 0,
        RestorePhase::CountingBackup => s.present@.len() == n && (forall|i: int|
            0 <= i < n ==> #[trigger] s.present@[i]) && s.expected@.len() < n && s.actual@.len()
            == 0,
        RestorePhase::Beginning | RestorePhase::EnablingKeys => s.expected@.len() == n
            && s.actual@.len() == 0,
        RestorePhase::Deleting(i) | RestorePhase::ReadingColumns(i) | RestorePhase::Importing(
            i,
        ) => i < n && s.expected@.len() == n && s.actual@.len() == 0,
        RestorePhase::CountingRestored => s.expected@.len() == n && s.actual@.len() < n,
        RestorePhase::Committing => s.expected@.len() == n && s.expected@ == s.actual@,
        RestorePhase::Finished | RestorePhase::Failed => true,
    }
}

/// Whether the event answers the action that the phase asked for; a failure
/// answers any action.
pub open spec fn accepts(p: RestorePhase, e: RestoreEvent) -> bool {
    match p {
        RestorePhase::Finished | RestorePhase::Failed => false,
        RestorePhase::CheckingTables => e is Failed || e is TableExists,
        RestorePhase::CountingBackup | RestorePhase::CountingRestored => e is Failed
            || e is RowCount,
        RestorePhase::ReadingColumns(_) => e is Failed || e is Columns,
        _ => e is Failed || e is Done,
    }
}

/// The message of a failed restore.
pub open spec fn rollback_text(reason: Seq<char>, path: Seq<char>) -> Seq<char> {
    "恢复失败: "@ + reason + "。原数据库已自动备份到: "@ + path
}

/// Whether the action rolls back with the message for `reason`.
pub open spec fn rolls_back(a: RestoreAction, reason: Seq<char>, path: Seq<char>) -> bool {
    a matches RestoreAction::Rollback(x) && x@ == rollback_text(reason, path)
}

/// The first position where two sequences of counts differ.
pub open spec fn first_difference(expected: Seq<i64>, actual: Seq<i64>, k: int) -> bool {
    0 <= k < expected.len() && k < actual.len() && expected[k] != actual[k] && forall|j: int|
        0 <= j < k ==> expected[j] == actual[j]
}

/// How the answer to a table check moves the restore on: the next check, the
/// first count once every table was found, or a rollback naming the first
/// missing table.
pub open spec fn after_table_check(p: Seq<bool>, n: RestoreState, a: RestoreAction) -> bool {
    if p.len() < table_count() {
        n.phase is CheckingTables && a == RestoreAction::CheckTable(insert_order()[p.len() as int])
    } else if forall|i: int| 0 <= i < p.len() ==> #[trigger] p[i] {
        n.phase is CountingBackup && a == RestoreAction::CountBackupRows(insert_order()[0])
    } else {
        n.phase is Failed && exists|t: Table|
            first_missing(insert_order(), p) == Some(t) && rolls_back(
                a,
                backup_error_text(BackupError::MissingTable { table: t }),
                n.auto_backup_path@,
            )
    }
}

/// How a count of the backup moves the restore on.
pub open spec fn after_backup_count(c: Seq<i64>, n: RestoreState, a: RestoreAction) -> bool {
    if c.len() < table_count() {
        n.phase is CountingBackup && a == RestoreAction::CountBackupRows(
            insert_order()[c.len() as int],
        )
    } else {
        n.phase is Beginning && a is BeginWithoutKeys
    }
}

/// How a count of the restored tables moves the restore on: the next count,
/// the commit once every count equals the backup's, or a rollback naming the
/// first table whose count differs.
pub open spec fn after_restored_count(
    expected: Seq<i64>,
    c: Seq<i64>,
    n: RestoreState,
    a: RestoreAction,
) -> bool {
    if c.len() < table_count() {
        n.phase is CountingRestored && a == RestoreAction::CountRows(insert_order()[c.len() as int])
    } else if expected == c {
        n.phase is Committing && a is Commit
    } else {
        n.phase is Failed && exists|k: int|
            first_difference(expected, c, k) && rolls_back(
                a,
                backup_error_text(
                    BackupError::RowCountMismatch {
                        table: insert_order()[k],
                        expected: expected[k],
                        actual: c[k],
                    },
                ),
                n.auto_backup_path@,
            )
    }
}

/// How the columns of the table at position `i` move the restore on: the copy
/// of their shared columns, or a rollback when they share none.
pub open spec fn after_columns(
    i: int,
    main: Seq<Seq<char>>,
    backup: Seq<Seq<char>>,
    n: RestoreState,
    a: RestoreAction,
) -> bool {
    let t = insert_order()[i];
    if shared(main, backup).len() == 0 {
        n.phase is Failed && rolls_back(
            a,
            backup_error_text(BackupError::NoSharedColumns { table: t }),
            n.auto_backup_path@,
        )
    } else {
        n.phase == RestorePhase::Importing(i as usize) && (a matches RestoreAction::Import { table, sql }
            && table == t && sql@ == import_sql(table_name(t), shared(main, backup)))
    }
}

/// The first state of a restore, whose automatic backup goes to
/// `auto_backup_path`, and its first action.
pub fn restore_start(auto_backup_path: String) -> (r: (RestoreState, RestoreAction))
    ensures
        restore_wf(r.0),
        r.0.phase is Migrating,
        !r.0.backed_up,
        r.0.auto_backup_path@ == auto_backup_path@,
        r.1 is Migrate,
{
    (
        RestoreState {
            phase: RestorePhase::Migrating,
            backed_up: false,
            auto_backup_path,
            present: Vec::new(),
            expected: Vec::new(),
            actual: Vec::new(),
        },
        RestoreAction::Migrate,
    )
}

impl RestoreState {
    /// Whether `event` answers the action this state asked for.
    pub fn accepts_event(&self, event: &RestoreEvent) -> (r: bool)
        ensures
            r == accepts(self.phase, *event),
    {
        match self.phase {
            RestorePhase::Finished | RestorePhase::Failed => false,
            RestorePhase::CheckingTables => matches!(event, RestoreEvent::Failed(_) | RestoreEvent::TableExists(_)),
            RestorePhase::CountingBackup | RestorePhase::CountingRestored => matches!(event, RestoreEvent::Failed(_) | RestoreEvent::RowCount(_)),
            RestorePhase::ReadingColumns(_) => matches!(event, RestoreEvent::Failed(_) | RestoreEvent::Columns { .. }),
            _ => matches!(event, RestoreEvent::Failed(_) | RestoreEvent::Done),
        }
    }
}

/// One step of a restore: from its state and the report on the last action,
/// the next state and the next action.
///
/// The restore brings the schema up to date, checks the backup, writes the
/// automatic backup of the current database, attaches the backup, checks that
/// every table exists in it and counts its rows, then, in one transaction,
/// empties the tables in delete order and copies them back in insert order,
/// compares the row counts with the backup's and commits. A failure before the
/// backup is attached is reported as it is; a later one rolls back, and its
/// message names the automatic backup.
#[verifier::rlimit(60)]
pub fn restore_step(state: RestoreState, event: RestoreEvent) -> (r: (RestoreState, RestoreAction))
    requires
        restore_wf(state),
        accepts(state.phase, event),
    ensures
        restore_wf(r.0),
        r.0.auto_backup_path@ == state.auto_backup_path@,
        r.0.backed_up == (state.backed_up || (state.phase is BackingUp && event is Done)),
        r.1 is DeleteTable ==> r.0.backed_up,
        r.1 is Commit ==> r.0.expected@ == r.0.actual@ && r.0.actual@.len() == table_count(),
        event matches RestoreEvent::Failed(m) ==> r.0.phase is Failed && (if before_attach(
            state.phase,
        ) {
            r.1 matches RestoreAction::Fail(x) && x@ == m@
        } else {
            rolls_back(r.1, m@, state.auto_backup_path@)
        }),
        r.0.present@ == (match (state.phase, event) {
            (RestorePhase::CheckingTables, RestoreEvent::TableExists(b)) => state.present@.push(b),
            _ => state.present@,
        }),
        r.0.expected@ == (match (state.phase, event) {
            (RestorePhase::CountingBackup, RestoreEvent::RowCount(c)) => state.expected@.push(c),
            _ => state.expected@,
        }),
        r.0.actual@ == (match (state.phase, event) {
            (RestorePhase::CountingRestored, RestoreEvent::RowCount(c)) => state.actual@.push(c),
            _ => state.actual@,
        }),
        event is Done ==> match state.phase {
            RestorePhase::Migrating => r.0.phase is Validating && r.1 is Validate,
            RestorePhase::Validating => r.0.phase is BackingUp && r.1 is WriteAutoBackup,
            RestorePhase::BackingUp => r.0.phase is Attaching && r.1 is Attach,
            RestorePhase::Attaching => r.0.phase is CheckingTables && r.1 == RestoreAction::CheckTable(
                insert_order()[0],
            ),
            RestorePhase::Beginning => r.0.phase == RestorePhase::Deleting(0) && r.1
                == RestoreAction::DeleteTable(delete_order()[0]),
            RestorePhase::Deleting(i) => if i + 1 < table_count() {
                r.0.phase == RestorePhase::Deleting((i + 1) as usize) && r.1
                    == RestoreAction::DeleteTable(delete_order()[i + 1])
            } else {
                r.0.phase is EnablingKeys && r.1 is EnableKeys
            },
            RestorePhase::EnablingKeys => r.0.phase == RestorePhase::ReadingColumns(0) && r.1
                == RestoreAction::ReadColumns(insert_order()[0]),
            RestorePhase::Importing(i) => if i + 1 < table_count() {
                r.0.phase == RestorePhase::ReadingColumns((i + 1) as usize) && r.1
                    == RestoreAction::ReadColumns(insert_order()[i + 1])
            } else {
                r.0.phase is CountingRestored && r.1 == RestoreAction::CountRows(insert_order()[0])
            },
            RestorePhase::Committing => r.0.phase is Finished && r.1 is Finish,
            _ => true,
        },
        event matches RestoreEvent::TableExists(b) ==> after_table_check(
            state.present@.push(b),
            r.0,
            r.1,
        ),
        event matches RestoreEvent::RowCount(c) ==> (state.phase is CountingBackup
            ==> after_backup_count(state.expected@.push(c), r.0, r.1)),
        event matches RestoreEvent::RowCount(c) ==> (state.phase is CountingRestored
            ==> after_restored_count(state.expected@, state.actual@.push(c), r.0, r.1)),
        state.phase matches RestorePhase::ReadingColumns(i) ==> (event matches RestoreEvent::Columns {
            main,
            backup,
        } ==> after_columns(i as int, views(main@), views(backup@), r.0, r.1)),
{
    let RestoreState { phase, backed_up, auto_backup_path, mut present, mut expected, mut actual } =
        state;
    proof {
        law_delete_order_children_first();
        law_insert_order_parents_first();
    }
    let n = get_insert_order().len();
    match event {
        RestoreEvent::Failed(m) => {
            let early = matches!(phase, RestorePhase::Migrating | RestorePhase::Validating | RestorePhase::BackingUp | RestorePhase::Attaching);
            let action = if early {
                RestoreAction::Fail(m)
            } else {
                RestoreAction::Rollback(restore_failure_message(m.as_str(), auto_backup_path.as_str()))
            };
            (
                RestoreState { phase: RestorePhase::Failed, backed_up, auto_backup_path, present, expected, actual },
                action,
            )
        },
        RestoreEvent::Done => {
            let (next, action) = match phase {
                RestorePhase::Migrating => (RestorePhase::Validating, RestoreAction::Validate),
                RestorePhase::Validating => (RestorePhase::BackingUp, RestoreAction::WriteAutoBackup),
                RestorePhase::BackingUp => (RestorePhase::Attaching, RestoreAction::Attach),
                RestorePhase::Attaching => {
                    let order = get_insert_order();
                    (RestorePhase::CheckingTables, RestoreAction::CheckTable(order[0]))
                },
                RestorePhase::Beginning => {
                    let order = get_delete_order();
                    (RestorePhase::Deleting(0), RestoreAction::DeleteTable(order[0]))
                },
                RestorePhase::Deleting(i) => {
                    if i + 1 < n {
                        let order = get_delete_order();
                        (RestorePhase::Deleting(i + 1), RestoreAction::DeleteTable(order[i + 1]))
                    } else {
                        (RestorePhase::EnablingKeys, RestoreAction::EnableKeys)
                    }
                },
                RestorePhase::EnablingKeys => {
                    let order = get_insert_order();
                    (RestorePhase::ReadingColumns(0), RestoreAction::ReadColumns(order[0]))
                },
                RestorePhase::Importing(i) => {
                    let order = get_insert_order();
                    if i + 1 < n {
                        (RestorePhase::ReadingColumns(i + 1), RestoreAction::ReadColumns(order[i + 1]))
                    } else {
                        (RestorePhase::CountingRestored, RestoreAction::CountRows(order[0]))
                    }
                },
                _ => (RestorePhase::Finished, RestoreAction::Finish),
            };
            let now_backed_up = backed_up || matches!(phase, RestorePhase::BackingUp);
            (
                RestoreState { phase: next, backed_up: now_backed_up, auto_backup_path, present, expected, actual },
                action,
            )
        },
        RestoreEvent::TableExists(b) => {
            present.push(b);
            let order = get_insert_order();
            let action = if present.len() < n {
                (RestorePhase::CheckingTables, RestoreAction::CheckTable(order[present.len()]))
            } else {
                match check_tables_present(&order, &present) {
                    Ok(()) => (RestorePhase::CountingBackup, RestoreAction::CountBackupRows(order[0])),
                    Err(e) => {
                        let reason = e.message();
                        (
                            RestorePhase::Failed,
                            RestoreAction::Rollback(restore_failure_message(reason.as_str(), auto_backup_path.as_str())),
                        )
                    },
                }
            };
            (
                RestoreState { phase: action.0, backed_up, auto_backup_path, present, expected, actual },
                action.1,
            )
        },
        RestoreEvent::RowCount(c) => {
            let order = get_insert_order();
            if matches!(phase, RestorePhase::CountingBackup) {
                expected.push(c);
                let step = if expected.len() < n {
                    (RestorePhase::CountingBackup, RestoreAction::CountBackupRows(order[expected.len()]))
                } else {
                    (RestorePhase::Beginning, RestoreAction::BeginWithoutKeys)
                };
                (
                    RestoreState { phase: step.0, backed_up, auto_backup_path, present, expected, actual },
                    step.1,
                )
            } else {
                actual.push(c);
                let step = if actual.len() < n {
                    (RestorePhase::CountingRestored, RestoreAction::CountRows(order[actual.len()]))
                } else {
                    match check_row_counts(&order, &expected, &actual) {
                        Ok(()) => (RestorePhase::Committing, RestoreAction::Commit),
                        Err(e) => {
                            let reason = e.message();
                            let msg = restore_failure_message(reason.as_str(), auto_backup_path.as_str());
                            proof {
                                let k = choose|k: int|
                                    0 <= k < order@.len() && expected@[k] != actual@[k] && (forall|j: int|
                                        0 <= j < k ==> expected@[j] == actual@[j]) && e == (BackupError::RowCountMismatch {
                                        table: order@[k],
                                        expected: expected@[k],
                                        actual: actual@[k],
                                    });
                                assert(first_difference(expected@, actual@, k));
                                assert(msg@ == rollback_text(
                                    backup_error_text(
                                        BackupError::RowCountMismatch {
                                            table: insert_order()[k],
                                            expected: expected@[k],
                                            actual: actual@[k],
                                        },
                                    ),
                                    auto_backup_path@,
                                ));
                            }
                            (RestorePhase::Failed, RestoreAction::Rollback(msg))
                        },
                    }
                };
                (
                    RestoreState { phase: step.0, backed_up, auto_backup_path, present, expected, actual },
                    step.1,
                )
            }
        },
        RestoreEvent::Columns { main, backup } => {
            let i = match phase {
                RestorePhase::ReadingColumns(i) => i,
                _ => 0,
            };
            let order = get_insert_order();
            let table = order[i];
            let step = match import_table_sql(table, &main, &backup) {
                Ok(sql) => (RestorePhase::Importing(i), RestoreAction::Import { table, sql }),
                Err(e) => {
                    let reason = e.message();
                    (
                        RestorePhase::Failed,
                        RestoreAction::Rollback(restore_failure_message(reason.as_str(), auto_backup_path.as_str())),
                    )
                },
            };
            (
                RestoreState { phase: step.0, backed_up, auto_backup_path, present, expected, actual },
                step.1,
            )
        },
    }
}

} // verus!
