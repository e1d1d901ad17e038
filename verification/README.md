# cyberdeck

A terminal SSH key manager: it lists and audits local keys, keeps target
profiles, installs public keys on remote hosts, runs remote commands and
imports targets from `~/.ssh/config`.

The library under `src/` is verified with Verus. It holds the project's
rules with their specifications: the key audit, the SSH config parser and
import, key name and path handling, shell quoting of the key-exchange
command, the interpretation of remote command results, what of the
configuration may be written to disk, the command line's profile rules, and
the state machine of the terminal interface together with the text it shows.
Proof functions named `lemma_*` state the library's laws (for example that a
quoted word reads back as the original text, that a stored configuration
holds no secret, that importing twice adds nothing).

`app/` is the program around it: the command line, file and network I/O
(`ssh2`, `ssh-keygen`), JSON storage and the ratatui drawing. It performs the
work that the state machine asks for and reports the outcome back.

`tests/` exercises the library on concrete values.
