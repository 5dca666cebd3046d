# devzat_forth

A Forth plugin for the Devzat chat room: the `forth` command evaluates the
code it is given in a Forth interpreter (a C library) whose state persists
between calls, and replies with what the interpreter printed.

- `src/` is the verified library: the capture of the interpreter's output
  (`output`), the watchdog that gives up on an evaluation after ten seconds
  (`watchdog`), the calls that bring up, prepare and reset each interpreter
  (`forth`), the reply formatting for the chat's markdown (`markdown`) and
  the plugin's settings, messages and command line (`plugin`).
- `app/` is the program: the C interface of the interpreters, the
  evaluation thread, the chat client and the environment.
- `tests/` runs the library on concrete values.
