# runas

Runs a command as another user: through `systemd-run` or `run0`, or directly in the scope of the
caller, with or without a PAM session around it.

    runas [options] -- CMD

- `src/` is a library, written in Rust with Verus contracts. It decides everything that the
  program does: what the command line asks for, who may act as whom, what is typed at a prompt,
  which environment the command gets, and in which order privileges are changed. It does no input
  or output. Laws that span several functions are public proof functions whose names begin with
  `law_`.
- `app/` is the program around it. It makes the system calls that the library asks for and hands
  the results back.
- `tests/` runs the library on concrete values.

The variant of the program (what runs the command, PAM or the shadow file, helper programs for
passwords) is a value of `shared::Features`; the program has it in one constant.
