# audio_separator

Separates the vocals of a song from its accompaniment with an MDX-Net ONNX
model. The library in `src/` is written in Verus and holds everything that
is not arithmetic on samples: the per-channel layout of decoded and written
audio, the block plan of the resampler, the STFT frame geometry, the
overlapping model windows and tensor layout, the model lookup order, the
step sequence of a separation job, the output file names, the interface
texts and the state of the graphical interface. Sample values travel
through these functions as a type parameter.

`app/` is the command-line program: decoding (symphonia), resampling
(rubato), the spectral transforms (realfft), inference (ort), WAV output
(hound), the model download (ureq) and argument handling (clap), driven by
the library's plans and decisions.
