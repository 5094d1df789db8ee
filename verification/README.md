# gitarena

The verified core of GitArena, a self-hosted Git forge: the decisions and
transformations behind its HTTP API, written in Verus with their contracts
proved.

- `src/` is the library. Each module covers one area of the service:
  repositories (`repo`, `locate`, `access`), trees and files (`tree`,
  `listing`, `walk`, `readme`, `content`, `archive`, `zip_time`), history
  (`history`, `tags`, `commit`), issues (`issues`, `labels`, `milestones`,
  `discussion`, `timeline`), releases (`releases`), organisations (`org`),
  events and feeds (`events`, `feeds`, `contributions`), the Git smart HTTP
  transport (`smart_http`), the image proxy (`proxy`), the explore page
  (`explore`), administration (`admin`), and shared text, number and URL
  handling (`text`, `number`, `url`).
- `tests/` runs the library on concrete values.
- `app/` holds what stays outside the verifier: reading diffs with libgit2,
  the clock, network addresses and JSON output.

Outside crates (`uuid`, `url`, `qstring`, `chrono`, `dos-date-time`,
`infer`, `bstr`, `sha2`, `hex`) are called through small trusted wrappers
whose contracts state what their documentation and source show; the
logic around them is verified against those contracts.
