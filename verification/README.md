# model2api

The rules of a server that pools accounts of an upstream chat service and offers them under the
usual model APIs.

* `src/` is the library. Every item in it is verified with Verus: each function states what it
  returns or changes, and the `law_*` proof functions state what holds across functions. Outside
  crates are called through small trusted wrappers, each with a comment on what is claimed of it.
* `app/` is the server around it: routes, files, requests to other servers and background work.
* `tests/` runs the library on concrete values, with the outside crates linked.

Where to look:

| Subject | Modules |
| --- | --- |
| Text, JSON, times, encodings | `text`, `value`, `json`, `assoc`, `sorting`, `clock`, `codec`, `urlcode`, `pattern`, `digest` |
| Accounts and their pool | `account`, `records`, `pool_model`, `pool`, `roster`, `progress`, `refresh`, `deferral`, `jwt`, `accounts_api` |
| Keys, settings, errors | `auth`, `support`, `config`, `error`, `system` |
| Screening and logging of calls | `content_filter`, `calls`, `log`, `ai`, `image_inputs` |
| Images | `image_paths`, `image_storage`, `image_service`, `image_tags`, `image_task`, `naming`, `archive` |
| Backups | `backup`, `r2`, `cipher` |
| Logins and remote pools | `oauth`, `cpa` |
| Upstream | `engine`, `codex`, `search`, `picture`, `sse`, `editable` |
| Laws across modules | `pool_laws`, `account_laws`, `stored_laws`, `storage_laws` |
