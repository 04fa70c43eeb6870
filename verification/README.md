# Murmure

Local, offline dictation by keyboard shortcut, for macOS and Windows: a global
shortcut starts a recording, an overlay at the bottom of the screen follows it,
and the text is typed into the active field or copied to the clipboard. Speech is
recognised by llama.cpp (Qwen3-ASR, Voxtral), whisper.cpp (Whisper) or sherpa-onnx
(Parakeet, Canary), each run as a server on a local port.

The project has two parts.

- `src/` is the verified library: the catalogue of models, downloads, the settings,
  bringing an engine up, the requests to the engines and the meaning of their
  replies, cutting a recording into segments, transcribing along, and what is
  typed, copied and shown. Its functions carry contracts that Verus proves.
- `app/` is the application around it: windows, the microphone, the keyboard, files,
  the network, and the floating point arithmetic on samples.

What happens outside is handed to the library as events and values. Each of its
state machines tells what to do next; the application does it and reports back.
Samples and levels are handed over as the bit patterns of single precision
numbers, whose order is that of the numbers where they are positive. Paths are
handed over as `Place`s below a directory that the application knows.

Some work is left to other crates: graphemes to `unicode-segmentation`, WAV files
to `hound`, JSON to `serde_json`, base64 to `base64` and the pattern of Qwen3-ASR to
`regex`. The functions that call them say in their comments what is taken for
granted of the result.
