# salvo_worker

Helpers for running a web service on a serverless worker platform, with their
behaviour stated as contracts and proved with Verus.

## Layout

- `src/` — the verified library.
  - `random` — random words, ids in the range JavaScript numbers hold exactly,
    tokens and numeric codes.
  - `text` — prefix, suffix and padding helpers on strings.
  - `datetime` — timestamps as text, now and for a given instant.
  - `response`, `page`, `catch` — the message envelope, result pages, and the
    answers given to bad requests and unknown routes.
  - `finder` — where a JSON web token is looked for in a request.
  - `form` — which parser a body calls for, form fields and uploaded files, and
    the names uploads are stored under.
  - `cache`, `rate_limiter` — entries and guards kept in key-value namespaces,
    and how cached responses are written and read back.
  - `service`, `middleware` — the scheme and status of requests and responses,
    and what the logging and timing middleware report.
  - `open_api`, `release_laws`, `doc_ui` — switching handler sources between
    documented endpoints and plain handlers, the proof that switching back restores
    them, and the pages that show the API document.
  - `lark`, `display`, `proxy` — notices to a chat bot, optional values in log
    lines, and the HTTP client used for proxying.
- `app/` — platform glue that Verus does not see: clocks, file system and
  network access, JSON and CBOR encodings, and the asynchronous loops.
- `tests/` — tests of the library on concrete values.

Calls into other crates (`http`, `mime`, `multer`, `multimap`, `form_urlencoded`,
`base64`, `rand`, `getrandom`, `time`, `reqwest`) are made through small
trusted wrappers whose doc comments say what is assumed of them.
