# minit

Initialises a management database from manage definition files.

- `src/` is the verified library: which sources the command line may name and
  which definition files are read (`sources`), the plan for each manage
  (`manages`) and the step-by-step work on it (`manage_run`), the indexes of a
  manage collection (`indexes`), the insertion of initial entities
  (`basic_items`), the view-rule records (`view_rules`), the root password
  (`root_password`), and the access to BSON documents (`document`).
- `app/` is the program: command line, configuration, logging, and every
  database call, driven by the library's decisions.
- `tests/` runs the library on concrete values.
