# my_nas

A small-team NAS server organised around crews: users, crews with roles and
sub-crews, folders and files, a trash, WebDAV access and subtitle conversion.

The rules of the service are written in Verus and proved against their
contracts; the server around them is ordinary Rust.

## Layout

- `src/` – the verified library.
  - `models`, `errors` – the data model and the error kinds.
  - `access`, `crew`, `crew_views` – crew membership, roles, folder access
    decisions, crew creation, settings, invitations, bans, deletion and the
    crew listings, with the laws that hold of them (`lemma_*`).
  - `auth`, `crypto`, `rate_limit`, `keyed`, `ids` – sessions, password and
    token handling, the login lockout, the token cache (kept in a `keyed`
    store) and fresh identifiers.
  - `files`, `trash`, `storage`, `stream` – naming of uploads and folders,
    listings, search patterns, trash scope, on-disk sharding and ranged
    downloads.
  - `subtitle`, `smi` – SRT, SMI and VTT conversion to WebVTT.
  - `webdav_auth`, `webdav_vfs`, `webdav_fs` – WebDAV credentials, path
    resolution and file plans.
  - `web`, `requests`, `proxy` – request parsing, response shaping and the
    forwarding decisions of the front proxy.
  - `text`, `bytes` – verified string and byte helpers used throughout.
- `tests/` – tests of the library on concrete values.
- `app/` – the server: configuration, database access, disk I/O, the HTTP
  routes and the WebDAV adapter, which call into the library for every
  decision.
