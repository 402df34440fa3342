# termsuite

The verified core of two terminal programs:

* **musicman**, a music library manager: a folder browser, tag cleaning,
  track numbering by creation date, FLAC to M4A conversion, metadata
  lookups against web services, and export to a Rockbox iPod;
* **outreach**, a keyboard-driven Outlook mail client: device-code sign-in,
  Microsoft Graph requests, a local mail cache and an inbox view.

`src/` holds what the programs decide and compute, each function with a
contract proved by Verus: the browser's flattened tree and its
expand/collapse operations, the key handling of both programs, the
numbering and file selection rules, path and text handling, the URLs,
forms and payloads sent to web services and what is read from their
answers, and the text shown on screen. Public proof functions state the
laws that hold across calls (for instance that collapsing right after
expanding restores the rows, or that the provider chain answers with the
first service that found a track).

`app/` is the ordinary Rust around it: the terminal, the file system,
HTTP, SQLite and tag files. It hands the library plain values and
carries out the work the library asks for.

`tests/` runs the library on concrete inputs.
