# maelstrom

The decision logic of a non-linear video editor's preview engine, written in Verus. Every function
of the library states what it returns or changes, and Verus proves it.

## The library (`src/`)

| Module | What it decides |
| --- | --- |
| `frame_cache` | which decoded frames a byte-bounded, least-recently-used cache keeps |
| `decode` | monitor decoding: requests and generations, the cache of scrub frames, one traversal towards a target, sticky sessions and their permits, lanes, shared source actors, and the packing of RGBA frames |
| `audio` | the audio transport: targets and fades, the device clock, lanes and their queues, decode work, meters and counters |
| `compositor` | which layers of a composition are planned, in which slot and which way round, and which fades bear on a tick |
| `hardware` | which adapters render and decode |
| `model_preload` | which packaged models are loaded |
| `probe` | the windowed latency measurement |
| `source_path`, `arith`, `table`, `text`, `timestamps` | paths by component, saturating arithmetic, a small map, decimal text, timestamp parsing |

Times are nanoseconds of one monotonic clock, source positions are microsecond ticks, source paths
are lists of components, and a single-precision number is its bit pattern. Threads and files are not
part of the library, and of locks only the bounded attempt in `audio::lock` is. Where work alternates
with decisions, the library is a state machine that says what is due, and its caller reports what
came of it.

Laws that span several functions stand beside them as public proof functions named `law_..`.

## What is taken on trust

`decode::packing::shared_bytes` (`Arc::<[u8]>::from`), `probe::configuration::lowercase`
(`str::to_lowercase`, whose result is only named), and in `audio::lock` the attempt to take a
standard `Mutex` and the processor's spin hint, of which nothing is claimed.

## The native side (`app/`)

Threads, devices, files, FFmpeg, wgpu and egui around the library, and all floating-point
arithmetic: filters, gains, fade curves and layer geometry.
