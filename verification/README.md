# scriptkeeper

Runs tests against scripts without changing the scripts: the tested script
runs under `ptrace`, the commands it runs are replaced by mock executables,
and what it does is compared with the steps of a `<script>.test.yaml` file.
Tests may end with a hole (`_`), which is filled by recording what the
script does; `--record` records a whole test.

## Layout

- `src/` is the library, verified with Verus:
  - `test_spec`, `yaml`, `command`, `argument_parser`, `command_matcher`,
    `executable_path`: reading test files and command lines, matching
    received commands;
  - `serialization`: writing tests back as YAML, with the law that what is
    written reads back as the same tests;
  - `test_checker`, `checker_result`, `test_result`: checking a run step by
    step, the verdict at its end and the report;
  - `recorder`: recording tests and filling holes, and what a run of a test
    file writes back and prints;
  - `debugging`: the log of system calls that the environment variable
    `DEBUG` turns on;
  - `syscall`, `tracee_memory`, `words`, `directory_entry`, `tracer`,
    `executable_mock`, `short_temp_files`, `stdio`, `context`, `cli`,
    `utils`, `text`: the decisions and the byte layouts behind the tracer.
- `app/` is the program: the command line, files, `fork`, `ptrace` and the
  pipes of the output streams. It hands the library plain values and carries
  out what the library decides.
- `tests/` runs the library on concrete inputs; the runs of scripts are
  played by the tests, command by command.
