# vitrine

A gallery of pictures on a content store (R2) and a database (D1), as a
Cloudflare Worker. Works are taken in with `POST /api/ingest`, listed and served,
and taken out again by decisions that another service makes.

* `src/` is the library, verified with Verus. It holds the rules: what a request
  may ask for, keys and fingerprints, the statements of each change, and the order
  in which things are done. It does no input or output.
* `app/` is the Worker around it: HTTP, bindings, reading JSON, and one loop that
  carries out what the library asks for.
* `tests/` are ordinary tests of the library.

## Handlers are machines

A handler begins with a request and names an action: read rows, run a statement
or a transaction, copy, store or delete objects, ask the clock, reply. Each event
that comes back takes it one step further (`effect.rs`). What a handler does on
every sequence of events is a spec function, `next`; the executable `step` is
proved equal to it, and the laws at the end of each module are proved of all runs:

| module | handler | some laws |
|---|---|---|
| `ingest` | taking in a work | the transaction follows the storing of every file; only objects of the same attempt are taken back; replaced objects are recorded; a repeated request replays |
| `prune` | removing images | objects are deleted after backup and commit; the kept image is never removed |
| `work_prune` | removing works | the same, and a receipt that was written replays |
| `retract` | taking a work back | objects are deleted after backup and commit |
| `telegram` | closing a receipt | a closed receipt is final; stored errors hold no credentials |
| `publication` | recording messages | a recorded publication is confirmed or refused |
| `image_review` | reviewing an image | changes follow the state of the review; an undone deletion stays undone; a removal keeps the review current |

Calls into other crates stand in `outside.rs`, each behind a small function whose
contract is taken on trust.
