# transcriber_api

A transcription and translation service for Japanese audio. Long recordings
are cut into overlapping chunks, each chunk is transcribed by a language
model, the boundaries between chunks are stitched, speakers are unified by
label, and the finished transcript is cached. Sentences can be sent for a
word-by-word translation.

## Layout

- `src/` — the library, written in Verus and verified:
  - `audio/chunker.rs`: where the audio is cut (90 s chunks every 75 s).
  - `transcribe/`: moving chunks into global time and ids, the boundary
    segments sent for stitching, merging a stitched boundary, renumbering,
    speaker unification, the word-fill guard, `TranscriptionSession`,
    which holds the state of one transcription between model calls, and
    `flow`, which decides what each model answer for a chunk leads to.
  - `streaming.rs`: finding complete segment objects in a JSON transcript
    that is still arriving.
  - `llm/`: model names, provider fallback (two Gemini keys, then
    OpenRouter), prompts built from segments, the OpenRouter event stream
    and the conversion of Gemini schemas to strict JSON schemas.
  - `api/`: the per-user token-bucket rate limiter, SHA-256 cache keys and
    the JSON text of a translation request.
  - `types/`: the transcript, translation and stitching data.
  - Laws that span several functions are public proof functions named
    `law_*`.
- `app/` — the HTTP server around the library: routes, authentication,
  database, ffmpeg, the model clients and the event streams. It converts
  between the wire format (seconds as floating point) and the library's
  milliseconds.
- `tests/` — tests of the library on concrete values.
