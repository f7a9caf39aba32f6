# MiniMinio

A minimal S3-compatible object store: one binary, one disk, a web interface.

The rules of the server live in a library whose functions carry contracts
proved with Verus:

- `auth` checks AWS Signature Version 4 (headers and presigned URLs);
  `client` signs requests to an upstream server, and
  `client::lemma_signed_headers_verify` proves that what it signs, `auth`
  accepts with the same credentials and region, in any header order, when
  the path has no query, the access key, date and region hold neither `/`
  nor `", "`, and the host, time and content type have no surrounding
  whitespace. `client::lemma_clock_signed_requests_verify` drops the
  conditions on the time and date for the stamps that `clock` writes,
  whatever the clock read.
- `storage`, `listing` and `order` hold the naming rules, object metadata,
  multipart assembly, listing pages and record ordering.
- `s3`, `routing` and `responses` read S3 requests and write the XML answers;
  `error` maps failures to codes, statuses and XML.
- `sync` is the replication worker's state machine, with its retry schedule.
- `ui` renders the web pages, `metrics` the sizes and durations they show.
- `text`, `scan`, `strmap`, `xml` are the text, search, map and XML helpers;
  `crypto`, `codec` and `clock` reach the hashing, decoding and time crates.

`app/` is the server around it: HTTP routing with axum, files with tokio,
replication requests with reqwest.
