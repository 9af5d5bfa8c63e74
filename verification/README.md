# happyview_spaces

The rules of permissioned data spaces: who may enter a space, how writes to it are checked, carried
out and recorded under one revision, how its op log is read and pruned, how members, invitations and
credentials come about, and what the server decides while it starts. Verus proves each function of
the library against its contract.

- `src/` is the library. What has to be asked of a database or of another server is not done here:
  where a rule depends on an answer, it is an enum of steps. A step says what to ask or to do, and
  its methods take the answer and give the next step. The spec function `leads_to` of a step says what
  it comes to for all answers that may follow.
- `tests/` runs the library, among others against a store in memory that carries out the steps.
- `app/` is the server around it: routes, SQL, calls to the rest of the instance, and the wire forms.

Functions named `law_*` state what holds of several functions together.

Calls into other crates (`base64`, `chrono`, `hex`, `k256`, `rand`, `serde_json`, `sha2`,
`urlencoding`, `uuid`) stand behind small wrappers in `clock`, `credentials`, `encoding`, `ids` and
`json`. Their contracts are believed, and say above each wrapper what they claim.
