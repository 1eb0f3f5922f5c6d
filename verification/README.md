# gemini-fastapi-rs

A gateway that speaks the OpenAI HTTP API in front of Gemini Web: chat completions,
responses, pictures, and the pictures that it keeps.

- `src/` is the library, verified with Verus: which way a request is answered, what is asked
  of Gemini Web and of the vision worker, how their answers are read, and what the caller is
  told of them.
- `app/` is the HTTP server around it.
- `tests/` runs the library with the crates that it calls.

What the library takes on trust of `serde_json`, `regex`, `sha2`, `base64`, `uuid` and `chrono`
is said above each function that calls them.
