# picture_vault

A photo and video server: users upload media into libraries, list them, fetch
pictures, thumbnails and streaming segments, and a background worker looks up the
places where pictures were taken.

The library in `src/` holds the server's logic, verified with Verus:

- `config`: the `key=value` configuration file as a map.
- `database`, `queries`: the query texts, the order in which each operation fetches
  a pool, prepares and executes its statements, the error code of each failure, and
  how rows are read back.
- `ingest`: recording an uploaded file (library lookup, insert, id read-back).
- `geocode`: the place lookup for a media file, step by step.
- `library`: the order in which libraries are listed and their sample media.
- `auth`, `network`, `upload`, `responses`: credentials, routes, byte ranges, upload
  fields and response bodies.
- `media`, `paths`: where media files, thumbnails, streaming files and uploads live.
- `maintenance`, `common`, `text`: background pacing, helpers and text handling.

Operations that talk to the database or the network are written as state machines:
the library decides the next action, and the program in `app/` performs it and
reports back. `app/` also holds the HTTP server, the image processing (which works
on floating-point geometry) and the file-system work.
