# crates_io_api

Crate metadata from the crates.io sparse registry index
(`https://index.crates.io/`), with the rules verified by Verus.

The index holds one file per crate and one line of JSON per published version.
`src/` says where a crate's file lies, what its lines say of the crate, its
versions and its dependencies, which version is the highest, how long a request
has to wait and what a reply means. `app/` sends the requests, decodes the JSON
and offers the answers in types with serde's traits.

| Module         | What it holds                                                     |
|----------------|-------------------------------------------------------------------|
| `index`        | the path and the URL of a crate's file                            |
| `entry`        | the lines of a file                                               |
| `features`     | feature maps and how two are joined                               |
| `semantic`     | how versions are written and ordered                              |
| `precedence`   | which of several versions is the highest                          |
| `response`     | what the entries of a file say of a crate and its dependencies    |
| `convert`      | the same for single entries, with numbers derived from texts      |
| `lookup`       | requests, and the answer or error that a file gives               |
| `exchange`     | user agents, rate limiting, statuses                              |
| `sync_client`, `async_client`, `stream` | the clients and the stream of crates     |
| `types`, `query`, `error`, `time`, `text` | the data of the registry and its parts |
| `laws`         | what holds of the answers as a whole                              |

Methods for data that the index does not hold return empty values
(`crate_downloads`, `crate_owners`, `crate_authors`,
`crate_reverse_dependencies`) or `Error::Api` (`summary`, `crates`, `user`).
