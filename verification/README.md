# Spectrum ARES

A local audio analysis library for Linux: it finds the Spotify playback stream in PipeWire,
captures it, and hands normalized frequency bands, loudness and peak to its callers through a small
C interface.

## Layout

- `src/` is the verified library. It decides; it performs no I/O and computes no sample values.
  - `error`, `state`, `api`: return codes, the runtime behind the C interface, and what its
    functions answer and write into the buffers of their callers.
  - `backend`: which backend is asked for. Under `backend::pipewire`:
    - `registry`: from announced objects to the list of discovered sources, linked to their clients.
    - `discovery`: which source plays Spotify, and which one is captured.
    - `capture`: what one capture does on each event of its stream and its timer.
    - `decode`: from the bytes of a buffer to frames of raw samples.
    - `worker`: what the worker does next, and what each event changes.
  - `dsp`: cutting samples into frames, and a spectrum into bands.
  - `text`, `spans`: the text and counting predicates that contracts speak of.
- `app/` is ordinary Rust around it: threads and locks, the environment, the PipeWire loops, the C
  functions, and the analysis of floating-point samples.
- `tests/` runs the library on concrete values.

Functions named `law_...` are proofs of what holds of the library as a whole.

## What the library promises

- Without a setting, or with a blank one, `SPECTRUM_ARES_BACKEND` leaves the choice to PipeWire; the
  mock backend is used only when it is named.
- A stream is captured only if it plays audio and has to do with Spotify, by its own names or
  through the client that it belongs to. There is no fallback to other output.
- While there is nothing to capture, and while playback is paused, the worker stays alive and gives
  silence. A lost stream gives silence and is looked for again every two seconds.
- Messages are written into the buffers of callers with a closing zero, and bands as far as there is
  room.

Time is a number of nanoseconds of a clock that never goes back. Levels are values of a type
parameter, which the library only moves.
