# ram_fileserver

The decision core of the Ram file server, written and proved in Verus.

`src/` is the library. It decides what the server does and performs no input or output: how
errors are classified and answered, which methods a resource offers, how names go into an
archive, who is admitted, what a listing or a search shows, and in which order a filesystem
transaction takes its steps. Where decisions alternate with system calls, a type of the library
stands for the state of the work: the caller performs the action it is told, and reports what
came of it.

- `error`, `fault`, `display`: typed errors, their meaning as values, their texts and their answers
- `response`, `content`, `browse`, `capabilities`, `dav_routes`: what is answered
- `authentication`: admission, and the path that access rules are applied to
- `archive`, `zip_name`: archives and the names in them
- `filesystem`: resolution, traversal, locks, publication, removal, renaming, and the cleanup of
  private candidates
- `path`, `text`, `time`, `sorting`: what the others are built on

What holds of several functions together is stated in the public proof functions whose names
begin with `law_`.

The library sets every header whose value is its own. These are left to its caller, and the
results of the library's functions say when they are due:

- the security headers of every response: `CallExtras`, from `Server::finish_call_response`
- the policy of the pages that manage files: `PageExtras`, from `send_index` and `send_view_page`
- the version of a listed directory: `PageExtras`, from `send_index`; `versions_scan` says for
  which scans there is one
- the content disposition: `Presentation`, from `finish_open_file` and `finish_error_page`, and the
  attachments that `ArchiveAction` asks for
- the challenge of a request without credentials, which is added before `Server::auth_reject`

Contracts speak of the fields before these. A response may carry them, and others besides, up to
`MAX_FOREIGN_FIELDS`.

`app/` adds those headers, performs the system calls, runs the state machines and converts values
of outside crates.
`tests/` runs the library on concrete values, among them scripted filesystems that fail at chosen
steps.
