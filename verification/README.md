# kewr_panel

The decision logic of the Kewr Panel system monitoring dashboard, written
in Verus with contracts and proofs.

- `src/` is the verified library: working-directory selection
  (`config`), Unix path components, joining and prefix tests (`path`),
  the access check for file operations (`file_manager`), text handling
  (`text`), the tool probes for Node.js, npm and PM2 (`probe`, `node`,
  `pm2`), the PostgreSQL status (`database`), the start-up permission
  check (`permissions`), disk and memory totals (`system`) and the PM2
  installation stream (`install`).
- `app/` is the web server around it: it reads the environment and the
  machine, runs commands, touches files, and serves the dashboard.
- `tests/` runs the library on concrete values, and compares the path
  functions with `std::path`.
