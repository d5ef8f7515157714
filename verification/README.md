# class_copilot

The verified core of a desktop application with which a head teacher keeps a
class: cohorts, students, homework, attendance, exams and scores, class
affairs, statistics, and backups of the whole database.

`src/` holds the rules of the application, each function with a contract that
Verus proves:

- `cohort` — the cohorts, which one is current, archiving and read-only rules;
- `student`, `exam` — checking spreadsheets of students and of scores before
  an import writes anything;
- `attendance`, `homework`, `affair`, `subject`, `membership` — what a write
  requires (statuses, fee entries, students of the right cohort);
- `query` — the filtered, paged list queries and the parameters they bind;
- `ranking` — ranks of scores and of total scores;
- `tables`, `backup` — the order in which a restore clears and refills
  tables, and every check a backup file or package must pass;
- `restore` — the restore protocol as a step function: the storage layer
  performs each action it names and reports back, and it decides what comes
  next, rolling back with a message that names the automatic backup;
- `settings`, `profile`, `export` — preferences, the most recent backups,
  reasons for attention, and the entries of a cohort export;
- `text` — decimal text, trimming, joining and searching strings.

`tests/` runs the library on concrete values. `app/` is the application around
it: database access with `sqlx`, spreadsheets, archives and reports; it hands
the library plain values and acts on what it decides.
