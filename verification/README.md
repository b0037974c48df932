# analyze_screen_sidecar

A small HTTP server that runs on a TV. `POST /analyze-screen` takes a screenshot, asks
an OpenAI-compatible vision model what it shows, and replies with a JSON object that
fits a fixed schema. `GET /health` tells whether the server is up.

The decisions are a library in `src/`, verified with Verus. It states, among others:

- Every reply to an analysis has the shape of one. With status 200 its `error` is null;
  with any other status it holds a code that belongs to the status.
- The model is asked once at most. One repair at most is asked for, only when neither
  the answer nor the object in it is valid, and it gets the whole answer. Once the
  budget is spent nobody is asked any more.
- An image that was scaled down is within the limit, keeps the ratio of its sides, and
  is not changed when it is scaled again.
- In watch mode nothing is ever spawned. In exec mode a capture always ends, and its
  outcome is stated in one piece.
- An environment variable that is set decides its setting, whatever the file says.

`app/` is the server itself: files, processes, the clock, the network, and the parsing
of the settings file. It performs what the library asks for and reports what happened.

`tests/` runs the library on concrete values, with the real `base64`, `image` and
`serde_json` crates.
