# task_core

A personal task manager: tasks with a title, a priority, a due day (and
optionally a due time of day) and a status, notes attached to tasks, a
command line to add, list, complete, annotate, move, show and delete tasks,
and a daemon that shows a desktop reminder when a task falls due.

- `src/` is the verified library: the records (`models`), the calendar rules
  and date arguments (`calendar`), number and date formatting (`text`,
  `present`, `messages`, `reminders`), the rules that select tasks and order
  notes (`queries`), the steps of the database operations (`repository`),
  an in-memory model of the database's task and note tables with the effect
  of each statement (`tables`), and the laws that relate the operations,
  proved on that model (`laws`). The programs keep their tables in MySQL.
- `app/` holds the programs: the MySQL-backed repository, the command line
  and the reminder daemon (run the program as `taskd` to get the daemon).
- `tests/` runs the library on concrete values.
