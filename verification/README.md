# shellpass

A read-only client for [pass](https://www.passwordstore.org/): a search bar, a
list of matching entries, and a click that copies `username:password` of an
entry to the clipboard.

The library (`src/`) holds the logic, verified with Verus:

- `paths` — entry paths: file names, stems, extensions, joining and stripping a root;
- `pass` — the repository's entries, listing them from a directory walk, matching
  them against a pattern, decrypting an entry into its username and password,
  wiping sensitive strings;
- `finder` — the search state;
- `notifications` — the message queue and the notification on screen;
- `settings` — the settings, their stored form, and the update requests;
- `housekeeper` — erasing the passphrase once it was kept for ten minutes;
- `ui` — the decisions behind the interface (zoom steps, submissions, copying);
- `android_interface` — activity class names, paths of document URIs, and the
  masking of copied text in error descriptions;
- `crypto` — the OpenPGP operations, done by the `pgp` crate;
- `text` — character-level helpers.

The application (`app/`) runs the window (eframe/egui), the background threads,
the settings file (BSON), the directory walk and the `gpg` command.
