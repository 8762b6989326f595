# rEFInd Switcher

rEFInd remembers in `EFI/refind/vars/PreviousBoot` which system was booted last.
The switcher replaces that file by one of three templates, `PreviousBoot-linux`,
`PreviousBoot-windows` and `PreviousBoot-mac`, and so chooses what boots next. It
lives in the tray, has a main window, and can start with the session.

- `src/` holds the rules, verified with Verus: no I/O, and a contract on every
  function. Work that alternates with the system (mounting, copying, registering a
  login item, restarting) is a function from a stage and a reply to the next stage.
- `app/` performs what the stages ask for: files, processes, tray and windows.
- `tests/` runs the library on concrete values.

| Module | Subject |
| --- | --- |
| `text`, `number`, `paths`, `unix_path` | text, numerals, paths |
| `command`, `users` | command lines and replies, users of a Linux system |
| `digest`, `variables` | SHA-256 digests, templates and the systems they stand for |
| `mountinfo`, `partitions`, `scan` | where the variables are looked for |
| `mount`, `switch` | making a partition writable, writing a template |
| `status`, `menu`, `window` | what is known and shown |
| `settings`, `autostart`, `login_item`, `desktop` | settings, starting with the session |
| `restart` | restarting the computer |

What is taken on trust stands behind four items: `sha2::Sha256::digest`,
`hex::encode`, `str::to_lowercase` and `String::push`.
