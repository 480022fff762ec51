# whisper_stt

Speech to text with Whisper, with the decisions verified.

The library under `src/` decides: which checkpoint a name stands for, where it lives on disk, how a
download proceeds, which packets of a media file count, how audio becomes mono at 16 kHz, whether a
request can run and with which parameters, and what the segments of a run add up to. Verus proves
what is stated of each of these functions, but for five items that are trusted: `String::push`,
`str::to_lowercase` and the name its result goes by, the success test of reqwest's `StatusCode`, and
`Path::is_file`, of whose answer nothing is claimed.

The crate under `app/` acts: it reads files and the network, decodes with symphonia, resamples with
rubato, and runs the model through whisper-rs. It asks the library what to do and reports back what
came of it.

## Layout

| Module | Holds |
|---|---|
| `model`, `names` | the catalogue of checkpoints, and what holds of their names |
| `store`, `downloads` | where a checkpoint lives, its download step by step, and what holds of the disk meanwhile |
| `audio` | mixing, resampling and the packet loop |
| `transcriber` | options, segments and output |
| `handler`, `model_handler` | stores for callers that have a model name |
| `error` | the error type |
| `path`, `text` | slash-separated paths and text |

Public proof functions whose names start with `law_` state what holds across functions.

Floating-point arithmetic stays outside: types are generic in their samples and probabilities, and
averaging a frame, converting a sample rate or comparing two probabilities is handed in.
