# m87_client

The verified core of the make87 command-line client and device runtime.

`src/` is a Verus library: every function there carries a contract that
Verus checks, and the laws that tie several functions together are proof
functions beside them. `app/` is the `m87` command around it (command-line
parsing, files, processes). `tests/` exercise the library on concrete values.

Modules of the library:

- `fs`, `services`, `text`: paths of the form `<device>:<path>`, exclusion
  patterns, file fingerprints and the sync plan; parsing of `docker ps` and
  `systemctl` output; the string functions they are built from.
- `deploy`, `units`, `schedule`, `events`, `logs`: the deployment manager's
  decisions (observations, rollback, steps with undo and retry, dirty units,
  work directories, reports, check scheduling, the on-disk event queue, log
  followers and snapshots).
- `control`, `flows`, `upgrade`, `terminal`, `rest`: framing on the control
  tunnel, UDP flows, WebSocket upgrades, terminal sessions, the REST
  endpoints' inputs and the validation of their tokens.
- `auth`, `config`, `paths`, `devices`, `api`, `cli`, `runtime`, `ssh`,
  `docker`: credentials and tokens, configuration, file locations, device
  resolution, API endpoints and the device-login wait, command-line
  decisions, the systemd service, SSH setup and the Docker socket.
- `metrics`: the integer system metrics (disk space, network deltas).
- `digest`, `clock`: SHA-1, base64 and hexadecimal encodings; the clock.
