# stokepile

A footage and telemetry archiver for action cameras, Flysight loggers and SD
cards: it finds attached devices, copies their media into a staging area with a
manifest beside each file, and uploads what is staged to Dropbox, Vimeo or a
local backup disk, reporting how each upload went.

The library in `src/` holds the logic and is verified with Verus: configuration
checks, staging and manifest names, the choice of files on a device, log
ordering, the Dropbox content hash, the upload retry machine, the report kept
per device, the runner's decisions (notices, stopping when the staging area
is full, staging only), device tracking across polls, and the human readable sizes and
times used in reports. `app/` is the command line program around it: reading
the configuration file, mounting devices, copying files and talking to the
services.

Layout of `src/`:

- `config` – the configuration, its builder and checks, and the backends,
  notifier and mailer chosen from it.
- `staging`, `stager`, `trimmer`, `content_hasher` – descriptors of staged
  files, their names and manifests, trimmed copies, and content hashes.
- `device`, `mountable`, `flysight`, `mass_storage`, `manual_file`,
  `ptp_device`, `local_backup` – finding devices and the files on them.
- `runner`, `storage`, `reporting`, `hotplug` – the run's decisions and the
  staging count per device, the upload machine, the report, and device
  states across polls.
- `dropbox`, `vimeo`, `pushover`, `client`, `messages`, `mailer`,
  `pushover_notifier`, `web_devices` – what is sent to and read from services.
- `text`, `paths`, `formatting` – characters, paths and number rendering.
